//! Shared miner data: hardware shape, device identity, control boards,
//! messages, mining modes and fan settings.
use vstd::prelude::*;
use crate::text::{text_eq, push_text, contains_text, contains_spec};

verus! {

/// Firmware-defined mining performance mode.
#[derive(Debug, Clone, Copy, PartialEq, Eq, Structural)]
pub enum MiningMode {
    /// Lower-power or quiet mining mode.
    Low,
    /// Normal mining mode.
    Normal,
    /// High-performance mining mode.
    High,
}

/// The name of a mining mode.
pub open spec fn mining_mode_name(m: MiningMode) -> Seq<char> {
    match m {
        MiningMode::Low => "Low"@,
        MiningMode::Normal => "Normal"@,
        MiningMode::High => "High"@,
    }
}

impl MiningMode {
    /// The name of this mode (its `Display`).
    pub fn name(&self) -> (r: &'static str)
        ensures
            r@ == mining_mode_name(*self),
    {
        match self {
            MiningMode::Low => "Low",
            MiningMode::Normal => "Normal",
            MiningMode::High => "High",
        }
    }

    /// The mode with the given name (its `FromStr`): exactly `Low`, `Normal` or
    /// `High`.
    pub fn from_name(s: &str) -> (r: Option<MiningMode>)
        ensures
            r matches Some(m) ==> mining_mode_name(m) == s@,
            r is None ==> (forall|m: MiningMode| mining_mode_name(m) != s@),
    {
        proof {
            reveal_strlit("Low");
            reveal_strlit("Normal");
            reveal_strlit("High");
        }
        if text_eq(s, "Low") {
            Some(MiningMode::Low)
        } else if text_eq(s, "Normal") {
            Some(MiningMode::Normal)
        } else if text_eq(s, "High") {
            Some(MiningMode::High)
        } else {
            None
        }
    }
}

/// A mining mode's name names that mode only, so reading a mode's name back
/// (`from_name`) gives the mode.
pub proof fn lemma_mining_mode_name_names_it(m: MiningMode)
    ensures
        forall|m2: MiningMode| #[trigger] mining_mode_name(m2) == mining_mode_name(m) ==> m2 == m,
{
    reveal_strlit("Low");
    reveal_strlit("Normal");
    reveal_strlit("High");
    assert forall|m2: MiningMode| #[trigger] mining_mode_name(m2) == mining_mode_name(m) implies m2 == m by {
        if m2 != m {
            assert(mining_mode_name(m2).len() != mining_mode_name(m).len());
        }
    }
}

/// Mining hash algorithm.
#[derive(Debug, Clone, Copy, PartialEq, Eq, Structural)]
pub enum HashAlgorithm {
    SHA256,
    Scrypt,
    X11,
    Blake2S256,
    Kadena,
}

/// The name of a hash algorithm.
pub open spec fn hash_algorithm_name(a: HashAlgorithm) -> Seq<char> {
    match a {
        HashAlgorithm::SHA256 => "SHA256"@,
        HashAlgorithm::Scrypt => "Scrypt"@,
        HashAlgorithm::X11 => "X11"@,
        HashAlgorithm::Blake2S256 => "Blake2S256"@,
        HashAlgorithm::Kadena => "Kadena"@,
    }
}

impl HashAlgorithm {
    /// The name of this algorithm (its `Display`).
    pub fn name(&self) -> (r: &'static str)
        ensures
            r@ == hash_algorithm_name(*self),
    {
        match self {
            HashAlgorithm::SHA256 => "SHA256",
            HashAlgorithm::Scrypt => "Scrypt",
            HashAlgorithm::X11 => "X11",
            HashAlgorithm::Blake2S256 => "Blake2S256",
            HashAlgorithm::Kadena => "Kadena",
        }
    }

    /// The algorithm with the given name (its `FromStr`).
    pub fn from_name(s: &str) -> (r: Option<HashAlgorithm>)
        ensures
            r matches Some(a) ==> hash_algorithm_name(a) == s@,
            r is None ==> (forall|a: HashAlgorithm| hash_algorithm_name(a) != s@),
    {
        proof {
            reveal_strlit("SHA256");
            reveal_strlit("Scrypt");
            reveal_strlit("X11");
            reveal_strlit("Blake2S256");
            reveal_strlit("Kadena");
        }
        if text_eq(s, "SHA256") {
            Some(HashAlgorithm::SHA256)
        } else if text_eq(s, "Scrypt") {
            Some(HashAlgorithm::Scrypt)
        } else if text_eq(s, "X11") {
            Some(HashAlgorithm::X11)
        } else if text_eq(s, "Blake2S256") {
            Some(HashAlgorithm::Blake2S256)
        } else if text_eq(s, "Kadena") {
            Some(HashAlgorithm::Kadena)
        } else {
            None
        }
    }
}

/// A hash algorithm's name names that algorithm only, so reading an
/// algorithm's name back (`from_name`) gives the algorithm.
pub proof fn lemma_hash_algorithm_name_names_it(a: HashAlgorithm)
    ensures
        forall|a2: HashAlgorithm| #[trigger] hash_algorithm_name(a2) == hash_algorithm_name(a) ==> a2 == a,
{
    reveal_strlit("SHA256");
    reveal_strlit("Scrypt");
    reveal_strlit("X11");
    reveal_strlit("Blake2S256");
    reveal_strlit("Kadena");
    assert forall|a2: HashAlgorithm| #[trigger] hash_algorithm_name(a2) == hash_algorithm_name(a) implies a2 == a by {
        if a2 != a {
            let x = hash_algorithm_name(a2);
            let y = hash_algorithm_name(a);
            assert(x.len() != y.len() || x[0] != y[0] || x[1] != y[1]);
        }
    }
}

/// The cooling method used by a miner model.
#[derive(Debug, Clone, Copy, PartialEq, Eq, Structural)]
pub enum CoolingType {
    /// Air cooling (default).
    Air,
    /// Hydro / water cooling.
    Hydro,
    /// Immersion cooling.
    Immersion,
}

/// The name of a cooling method.
pub open spec fn cooling_type_name(c: CoolingType) -> Seq<char> {
    match c {
        CoolingType::Air => "Air"@,
        CoolingType::Hydro => "Hydro"@,
        CoolingType::Immersion => "Immersion"@,
    }
}

impl Default for CoolingType {
    fn default() -> (r: CoolingType)
        ensures
            r == CoolingType::Air,
    {
        CoolingType::Air
    }
}

impl CoolingType {
    /// The name of this cooling method (its `Display`).
    pub fn name(&self) -> (r: &'static str)
        ensures
            r@ == cooling_type_name(*self),
    {
        match self {
            CoolingType::Air => "Air",
            CoolingType::Hydro => "Hydro",
            CoolingType::Immersion => "Immersion",
        }
    }

    /// The cooling method with the given name (its `FromStr`).
    pub fn from_name(s: &str) -> (r: Option<CoolingType>)
        ensures
            r matches Some(c) ==> cooling_type_name(c) == s@,
            r is None ==> (forall|c: CoolingType| cooling_type_name(c) != s@),
    {
        proof {
            reveal_strlit("Air");
            reveal_strlit("Hydro");
            reveal_strlit("Immersion");
        }
        if text_eq(s, "Air") {
            Some(CoolingType::Air)
        } else if text_eq(s, "Hydro") {
            Some(CoolingType::Hydro)
        } else if text_eq(s, "Immersion") {
            Some(CoolingType::Immersion)
        } else {
            None
        }
    }
}

/// A cooling method's name names that method only, so reading a method's
/// name back (`from_name`) gives the method.
pub proof fn lemma_cooling_type_name_names_it(c: CoolingType)
    ensures
        forall|c2: CoolingType| #[trigger] cooling_type_name(c2) == cooling_type_name(c) ==> c2 == c,
{
    reveal_strlit("Air");
    reveal_strlit("Hydro");
    reveal_strlit("Immersion");
    assert forall|c2: CoolingType| #[trigger] cooling_type_name(c2) == cooling_type_name(c) implies c2 == c by {
        if c2 != c {
            assert(cooling_type_name(c2).len() != cooling_type_name(c).len());
        }
    }
}

/// The individual configs that can be queried from a miner.
#[derive(Debug, Clone, Copy, PartialEq, Eq, Structural)]
pub enum ConfigField {
    Pools,
    Scaling,
    Tuning,
    Fan,
    Temperature,
}

impl ConfigField {
    /// Every config field, in declaration order.
    pub fn all() -> (r: Vec<ConfigField>)
        ensures
            r@ == seq![
                ConfigField::Pools,
                ConfigField::Scaling,
                ConfigField::Tuning,
                ConfigField::Fan,
                ConfigField::Temperature,
            ],
    {
        let r = vec![
            ConfigField::Pools,
            ConfigField::Scaling,
            ConfigField::Tuning,
            ConfigField::Fan,
            ConfigField::Temperature,
        ];
        r
    }
}

/// How serious a miner message is.
#[derive(Debug, Clone, Copy, PartialEq, Eq, Structural)]
pub enum MessageSeverity {
    Error,
    Warning,
    Info,
}

/// A message a miner reports.
#[derive(Debug)]
pub struct MinerMessage {
    /// When the message was raised (seconds since the epoch), 0 when unknown.
    pub timestamp: u32,
    /// The firmware's code for the message.
    pub code: u64,
    /// The text of the message.
    pub message: String,
    /// How serious the message is.
    pub severity: MessageSeverity,
}

/// The fields of a message: timestamp, code, text and severity.
pub open spec fn message_view(m: MinerMessage) -> (u32, u64, Seq<char>, MessageSeverity) {
    (m.timestamp, m.code, m.message@, m.severity)
}

/// The fields of a list of messages.
pub open spec fn messages_view(ms: Seq<MinerMessage>) -> Seq<(u32, u64, Seq<char>, MessageSeverity)> {
    ms.map_values(|m: MinerMessage| message_view(m))
}

impl MinerMessage {
    /// A message with the given fields.
    pub fn new(timestamp: u32, code: u64, message: String, severity: MessageSeverity) -> (r: MinerMessage)
        ensures
            r.timestamp == timestamp,
            r.code == code,
            r.message@ == message@,
            r.severity == severity,
    {
        MinerMessage { timestamp, code, message, severity }
    }
}

/// The fan mode written to or read from a miner.
#[derive(Debug, Clone, Copy, PartialEq, Eq, Structural)]
pub enum FanConfig {
    /// The firmware drives the fans; `idle_speed` is the speed in percent it
    /// falls back to, where the firmware reports one.
    Auto { idle_speed: Option<u64> },
    /// The fans run at a fixed speed in percent.
    Manual { fan_speed: u64 },
}

impl FanConfig {
    /// Fixed fan speed.
    pub fn manual(fan_speed: u64) -> (r: FanConfig)
        ensures
            r == (FanConfig::Manual { fan_speed }),
    {
        FanConfig::Manual { fan_speed }
    }

    /// Firmware-driven fans.
    pub fn auto(idle_speed: Option<u64>) -> (r: FanConfig)
        ensures
            r == (FanConfig::Auto { idle_speed }),
    {
        FanConfig::Auto { idle_speed }
    }
}

/// Control board identity reported by a miner.
#[derive(Debug)]
pub struct MinerControlBoard {
    /// Whether the control board name is a known board identifier.
    pub known: bool,
    /// Control board name or raw unknown identifier.
    pub name: String,
}

/// How a control board is shown: its name, or `Unknown: ` and the raw name.
pub open spec fn control_board_text(known: bool, name: Seq<char>) -> Seq<char> {
    if known {
        name
    } else {
        "Unknown: "@ + name
    }
}

impl MinerControlBoard {
    /// Create an unknown control board identity from a raw name.
    pub fn unknown(name: String) -> (r: MinerControlBoard)
        ensures
            !r.known,
            r.name@ == name@,
    {
        MinerControlBoard { known: false, name }
    }

    /// Create a known control board identity.
    pub fn known(name: String) -> (r: MinerControlBoard)
        ensures
            r.known,
            r.name@ == name@,
    {
        MinerControlBoard { known: true, name }
    }

    /// The board as text (its `Display`).
    pub fn to_text(&self) -> (r: String)
        ensures
            r@ == control_board_text(self.known, self.name@),
    {
        if self.known {
            self.name.clone()
        } else {
            let mut s = String::new();
            push_text(&mut s, "Unknown: ");
            push_text(&mut s, self.name.as_str());
            s
        }
    }
}

/// Expected hardware counts for a miner model.
#[derive(Debug)]
pub struct MinerHardware {
    /// Expected number of fans.
    pub fans: Option<u8>,
    /// Expected hashboards, represented as the expected number of chips per board.
    pub boards: Option<Vec<Option<u16>>>,
}

/// The sum of the known chip counts.
pub open spec fn chip_sum(boards: Seq<Option<u16>>) -> nat
    decreases boards.len(),
{
    if boards.len() == 0 {
        0
    } else {
        chip_sum(boards.drop_last()) + match boards.last() {
            Some(c) => c as nat,
            None => 0,
        }
    }
}

/// The value of a hardware description: fans and per-board chip counts.
pub struct MinerHardwareV {
    pub fans: Option<u8>,
    pub boards: Option<Seq<Option<u16>>>,
}

impl View for MinerHardware {
    type V = MinerHardwareV;

    open spec fn view(&self) -> MinerHardwareV {
        MinerHardwareV {
            fans: self.fans,
            boards: match self.boards {
                Some(b) => Some(b@),
                None => None,
            },
        }
    }
}

impl MinerHardware {
    /// No expected fans or boards (`Default`).
    pub fn empty() -> (r: MinerHardware)
        ensures
            r@.fans is None,
            r@.boards is None,
    {
        MinerHardware { fans: None, boards: None }
    }

    /// Expected number of hashboards, when it fits in `u8`.
    pub fn board_count(&self) -> (r: Option<u8>)
        ensures
            r == match self@.boards {
                Some(b) => if b.len() <= u8::MAX {
                    Some(b.len() as u8)
                } else {
                    None
                },
                None => None,
            },
    {
        match &self.boards {
            Some(b) => if b.len() <= 255 {
                Some(b.len() as u8)
            } else {
                None
            },
            None => None,
        }
    }

    /// Expected total chip count across all hashboards; boards with no
    /// expected count add nothing.
    pub fn total_chips(&self) -> (r: Option<u16>)
        requires
            self@.boards matches Some(b) ==> chip_sum(b) <= u16::MAX,
        ensures
            r == match self@.boards {
                Some(b) => Some(chip_sum(b) as u16),
                None => None,
            },
    {
        match &self.boards {
            Some(b) => {
                let mut total: u16 = 0;
                let mut i: usize = 0;
                while i < b.len()
                    invariant
                        i <= b@.len(),
                        chip_sum(b@) <= u16::MAX,
                        total == chip_sum(b@.take(i as int)),
                    decreases b@.len() - i,
                {
                    assert(b@.take(i + 1).drop_last() =~= b@.take(i as int));
                    proof {
                        lemma_chip_sum_prefix(b@, i + 1);
                    }
                    match b[i] {
                        Some(c) => {
                            total = total + c;
                        },
                        None => {},
                    }
                    i = i + 1;
                }
                assert(b@.take(b@.len() as int) =~= b@);
                Some(total)
            },
            None => None,
        }
    }

    /// Expected total chip count across all hashboards (the `chips` getter).
    pub fn chips(&self) -> (r: Option<u16>)
        requires
            self@.boards matches Some(b) ==> chip_sum(b) <= u16::MAX,
        ensures
            r == match self@.boards {
                Some(b) => Some(chip_sum(b) as u16),
                None => None,
            },
    {
        self.total_chips()
    }

    /// Expected number of hashboards (the `board_count` getter).
    pub fn py_board_count(&self) -> (r: Option<u8>)
        ensures
            r == match self@.boards {
                Some(b) => if b.len() <= u8::MAX {
                    Some(b.len() as u8)
                } else {
                    None
                },
                None => None,
            },
    {
        self.board_count()
    }

    /// Expected chip count for a specific hashboard position.
    pub fn chips_for_board(&self, position: usize) -> (r: Option<u16>)
        ensures
            r == match self@.boards {
                Some(b) => if position < b.len() {
                    b[position as int]
                } else {
                    None
                },
                None => None,
            },
    {
        match &self.boards {
            Some(b) => if position < b.len() {
                b[position]
            } else {
                None
            },
            None => None,
        }
    }

    /// A copy of this description.
    pub fn duplicate(&self) -> (r: MinerHardware)
        ensures
            r@ == self@,
    {
        MinerHardware {
            fans: self.fans,
            boards: match &self.boards {
                Some(b) => Some(b.clone()),
                None => None,
            },
        }
    }
}

proof fn lemma_chip_sum_prefix(b: Seq<Option<u16>>, n: int)
    requires
        0 <= n <= b.len(),
    ensures
        chip_sum(b.take(n)) <= chip_sum(b),
    decreases b.len() - n,
{
    if n < b.len() {
        lemma_chip_sum_prefix(b, n + 1);
        assert(b.take(n + 1).drop_last() =~= b.take(n));
    } else {
        assert(b.take(n) =~= b);
    }
}

/// Whether any board reports a chip count.
pub open spec fn any_count(boards: Seq<Option<u16>>) -> bool {
    exists|i: int| 0 <= i < boards.len() && #[trigger] boards[i] is Some
}

/// The working chips of all boards together (a computed field of the miner
/// data): the sum of the counts the boards report, or none when no board
/// reports one.
pub fn total_working_chips(working: &Vec<Option<u16>>) -> (r: Option<u16>)
    requires
        chip_sum(working@) <= u16::MAX,
    ensures
        r == if any_count(working@) {
            Some(chip_sum(working@) as u16)
        } else {
            None
        },
{
    let mut total: u16 = 0;
    let mut seen = false;
    let mut i: usize = 0;
    while i < working.len()
        invariant
            i <= working@.len(),
            chip_sum(working@) <= u16::MAX,
            total == chip_sum(working@.take(i as int)),
            seen == exists|j: int| 0 <= j < i && #[trigger] working@[j] is Some,
        decreases working@.len() - i,
    {
        assert(working@.take(i + 1).drop_last() =~= working@.take(i as int));
        proof {
            lemma_chip_sum_prefix(working@, i + 1);
        }
        match working[i] {
            Some(c) => {
                total = total + c;
                seen = true;
            },
            None => {},
        }
        i = i + 1;
    }
    assert(working@.take(working@.len() as int) =~= working@);
    if seen {
        Some(total)
    } else {
        None
    }
}

/// A miner model: its make, its name, its hardware and its cooling.
pub trait MinerModel {
    /// The make's name.
    spec fn make_name_spec(&self) -> Seq<char>;

    /// The model's name (its `Display`).
    spec fn model_name_spec(&self) -> Seq<char>;

    /// The expected hardware.
    spec fn hardware_spec(&self) -> MinerHardwareV;

    /// The cooling method.
    spec fn cooling_spec(&self) -> CoolingType;

    fn make_name(&self) -> (r: String)
        ensures
            r@ == self.make_name_spec(),
    ;

    fn model_name(&self) -> (r: String)
        ensures
            r@ == self.model_name_spec(),
    ;

    fn hardware(&self) -> (r: MinerHardware)
        ensures
            r@ == self.hardware_spec(),
    ;

    fn cooling(&self) -> (r: CoolingType)
        ensures
            r == self.cooling_spec(),
    ;
}

/// A firmware: its name and whether it reports per-board chip temperatures.
pub trait MinerFirmware {
    /// The firmware's name (its `Display`).
    spec fn firmware_name_spec(&self) -> Seq<char>;

    /// Whether it reports per-board chip temperatures.
    spec fn reports_chip_temperature_spec(&self) -> bool;

    fn firmware_name(&self) -> (r: String)
        ensures
            r@ == self.firmware_name_spec(),
    ;

    fn reports_chip_temperature(&self) -> (r: bool)
        ensures
            r == self.reports_chip_temperature_spec(),
    ;
}

/// A miner model the library does not know, named by the text it reported.
#[derive(Debug)]
pub struct UnknownMinerModel {
    pub name: String,
}

impl UnknownMinerModel {
    /// The model named by a text (its `FromStr`, which never fails).
    pub fn from_name(s: &str) -> (r: UnknownMinerModel)
        ensures
            r.name@ == s@,
    {
        UnknownMinerModel { name: s.to_owned() }
    }
}

impl MinerModel for UnknownMinerModel {
    open spec fn make_name_spec(&self) -> Seq<char> {
        "Unknown"@
    }

    open spec fn model_name_spec(&self) -> Seq<char> {
        "Unknown: "@ + self.name@
    }

    open spec fn hardware_spec(&self) -> MinerHardwareV {
        MinerHardwareV { fans: None, boards: None }
    }

    open spec fn cooling_spec(&self) -> CoolingType {
        CoolingType::Air
    }

    fn make_name(&self) -> (r: String) {
        "Unknown".to_owned()
    }

    fn model_name(&self) -> (r: String) {
        let mut s = String::new();
        push_text(&mut s, "Unknown: ");
        push_text(&mut s, self.name.as_str());
        s
    }

    fn hardware(&self) -> (r: MinerHardware) {
        MinerHardware::empty()
    }

    fn cooling(&self) -> (r: CoolingType) {
        CoolingType::Air
    }
}

/// Static identity and hardware information for a miner model.
#[derive(Debug)]
pub struct DeviceInfo {
    /// Miner manufacturer or make.
    pub make: String,
    /// Miner model name.
    pub model: String,
    /// Expected hardware shape.
    pub hardware: MinerHardware,
    /// Firmware name or family.
    pub firmware: String,
    /// Mining hash algorithm.
    pub algo: HashAlgorithm,
    /// The cooling method used by this miner.
    pub cooling: CoolingType,
    /// Whether this miner's firmware reports per-board chip temperatures.
    pub reports_chip_temperature: bool,
}

impl DeviceInfo {
    /// Build device information from a model and firmware implementation.
    pub fn new<M: MinerModel, F: MinerFirmware>(model: &M, firmware: &F, algo: HashAlgorithm) -> (r: DeviceInfo)
        ensures
            r.make@ == model.make_name_spec(),
            r.model@ == model.model_name_spec(),
            r.hardware@ == model.hardware_spec(),
            r.firmware@ == firmware.firmware_name_spec(),
            r.algo == algo,
            r.cooling == model.cooling_spec(),
            r.reports_chip_temperature == firmware.reports_chip_temperature_spec(),
    {
        DeviceInfo {
            hardware: model.hardware(),
            cooling: model.cooling(),
            reports_chip_temperature: firmware.reports_chip_temperature(),
            make: model.make_name(),
            model: model.model_name(),
            firmware: firmware.firmware_name(),
            algo,
        }
    }
}

impl DeviceInfo {
    /// A copy of this information.
    pub fn duplicate(&self) -> (r: DeviceInfo)
        ensures
            r.make@ == self.make@,
            r.model@ == self.model@,
            r.hardware@ == self.hardware@,
            r.firmware@ == self.firmware@,
            r.algo == self.algo,
            r.cooling == self.cooling,
            r.reports_chip_temperature == self.reports_chip_temperature,
    {
        DeviceInfo {
            make: self.make.clone(),
            model: self.model.clone(),
            hardware: self.hardware.duplicate(),
            firmware: self.firmware.clone(),
            algo: self.algo,
            cooling: self.cooling,
            reports_chip_temperature: self.reports_chip_temperature,
        }
    }
}

/// The stock Antminer firmware.
#[derive(Debug)]
pub struct AntMinerStockFirmware {}

impl MinerFirmware for AntMinerStockFirmware {
    open spec fn firmware_name_spec(&self) -> Seq<char> {
        "AntMiner Stock"@
    }

    open spec fn reports_chip_temperature_spec(&self) -> bool {
        false
    }

    fn firmware_name(&self) -> (r: String) {
        "AntMiner Stock".to_owned()
    }

    fn reports_chip_temperature(&self) -> (r: bool) {
        false
    }
}

impl AntMinerStockFirmware {
    /// Whether an RPC answer comes from stock Antminer firmware: it names
    /// `ANTMINER`.
    pub fn identify_rpc(&self, response: &str) -> (r: bool)
        ensures
            r == contains_spec(response@, "ANTMINER"@),
    {
        contains_text(response, "ANTMINER")
    }

    /// Whether a web answer comes from stock Antminer firmware: status 401
    /// with a digest realm of `antMiner`.
    pub fn identify_web(&self, status: u16, auth_header: &str) -> (r: bool)
        ensures
            r == (status == 401 && contains_spec(auth_header@, "realm=\"antMiner"@)),
    {
        status == 401 && contains_text(auth_header, "realm=\"antMiner")
    }

    /// Stock firmware.
    pub fn is_stock(&self) -> (r: bool)
        ensures
            r,
    {
        true
    }
}

} // verus!
