//! The data fields a miner reports, the API commands that carry them, and
//! how the value of a field is taken from the commands' answers.
//!
//! A backend names, for each field, where its value lies: a command and a
//! JSON pointer into that command's answer, and optionally a tag to put the
//! value under.  Collecting a field sends each needed command once and
//! combines what the pointers find (see [`crate::collector`]).
use vstd::prelude::*;
use crate::collector::{combine_extracted, extracted_view, merged_all};
use crate::json::{Json, JsonV, pointer_spec, view_opt};
use crate::text::text_eq;

verus! {

/// The data fields a miner can report.
#[derive(Debug, Clone, Copy, PartialEq, Eq, Structural)]
pub enum DataField {
    Mac,
    SerialNumber,
    Hostname,
    ApiVersion,
    FirmwareVersion,
    ControlBoardVersion,
    Hashboards,
    Chips,
    Hashrate,
    ExpectedHashrate,
    Fans,
    PsuFans,
    FluidTemperature,
    OutletFluidTemperature,
    AverageTemperature,
    Wattage,
    TuningTarget,
    TuningPercent,
    TuningCapabilities,
    LightFlashing,
    Messages,
    Uptime,
    IsMining,
    Pools,
}

/// The API a command goes to.
#[derive(Debug, Clone, Copy, PartialEq, Eq, Structural)]
pub enum ApiKind {
    /// The CGMiner-style RPC API.
    Rpc,
    /// The firmware's web API.
    Web,
    /// A GraphQL API.
    GraphQl,
}

/// A command sent to a miner: the API, the command and its text parameter,
/// where it has one.
#[derive(Debug, Clone, Copy)]
pub struct MinerCommand {
    pub api: ApiKind,
    pub command: &'static str,
    pub parameter: Option<&'static str>,
}

/// The value of a command.
pub struct CommandV {
    pub api: ApiKind,
    pub command: Seq<char>,
    pub parameter: Option<Seq<char>>,
}

impl View for MinerCommand {
    type V = CommandV;

    open spec fn view(&self) -> CommandV {
        CommandV {
            api: self.api,
            command: self.command@,
            parameter: match self.parameter {
                Some(p) => Some(p@),
                None => None,
            },
        }
    }
}

/// An RPC command without parameter.
pub fn rpc(command: &'static str) -> (r: MinerCommand)
    ensures
        r@ == (CommandV { api: ApiKind::Rpc, command: command@, parameter: None }),
{
    MinerCommand { api: ApiKind::Rpc, command, parameter: None }
}

/// A web API command without parameter.
pub fn web(command: &'static str) -> (r: MinerCommand)
    ensures
        r@ == (CommandV { api: ApiKind::Web, command: command@, parameter: None }),
{
    MinerCommand { api: ApiKind::Web, command, parameter: None }
}

/// An RPC command with a text parameter.
pub fn rpc_with(command: &'static str, parameter: &'static str) -> (r: MinerCommand)
    ensures
        r@ == (CommandV { api: ApiKind::Rpc, command: command@, parameter: Some(parameter@) }),
{
    MinerCommand { api: ApiKind::Rpc, command, parameter: Some(parameter) }
}

/// A GraphQL query.
pub fn graphql(query: &'static str) -> (r: MinerCommand)
    ensures
        r@ == (CommandV { api: ApiKind::GraphQl, command: query@, parameter: None }),
{
    MinerCommand { api: ApiKind::GraphQl, command: query, parameter: None }
}

/// Whether two commands are the same.
pub fn same_command(a: &MinerCommand, b: &MinerCommand) -> (r: bool)
    ensures
        r == (a@ == b@),
{
    if a.api != b.api || !text_eq(a.command, b.command) {
        return false;
    }
    match (a.parameter, b.parameter) {
        (Some(x), Some(y)) => text_eq(x, y),
        (None, None) => true,
        _ => false,
    }
}

/// Where the value of a field lies: a command, a JSON pointer into its
/// answer, and the tag to put the value under, where there is one.
#[derive(Debug, Clone, Copy)]
pub struct DataLocation {
    pub command: MinerCommand,
    pub key: &'static str,
    pub tag: Option<&'static str>,
}

/// The value of a location.
pub struct LocationV {
    pub command: CommandV,
    pub key: Seq<char>,
    pub tag: Option<Seq<char>>,
}

impl View for DataLocation {
    type V = LocationV;

    open spec fn view(&self) -> LocationV {
        LocationV {
            command: self.command@,
            key: self.key@,
            tag: match self.tag {
                Some(t) => Some(t@),
                None => None,
            },
        }
    }
}

/// The value of a location without parameter.
pub open spec fn location_v(api: ApiKind, command: Seq<char>, key: Seq<char>, tag: Option<Seq<char>>) -> LocationV {
    LocationV { command: CommandV { api, command, parameter: None }, key, tag }
}

/// The value of a location whose command has a parameter.
pub open spec fn location_p(
    api: ApiKind,
    command: Seq<char>,
    parameter: Seq<char>,
    key: Seq<char>,
    tag: Option<Seq<char>>,
) -> LocationV {
    LocationV { command: CommandV { api, command, parameter: Some(parameter) }, key, tag }
}

/// The values of a list of locations.
pub open spec fn locations_view(ls: Seq<DataLocation>) -> Seq<LocationV> {
    ls.map_values(|l: DataLocation| l@)
}

/// A location without tag.
pub fn at(command: MinerCommand, key: &'static str) -> (r: DataLocation)
    ensures
        r@ == (LocationV { command: command@, key: key@, tag: None }),
{
    DataLocation { command, key, tag: None }
}

/// A location whose value goes under a tag.
pub fn tagged_at(command: MinerCommand, key: &'static str, tag: &'static str) -> (r: DataLocation)
    ensures
        r@ == (LocationV { command: command@, key: key@, tag: Some(tag@) }),
{
    DataLocation { command, key, tag: Some(tag) }
}

/// The answer to a command among the answers received (the first one given
/// for it).
pub open spec fn answer_of(answers: Seq<(CommandV, JsonV)>, c: CommandV) -> Option<JsonV>
    decreases answers.len(),
{
    if answers.len() == 0 {
        None
    } else if answers[0].0 == c {
        Some(answers[0].1)
    } else {
        answer_of(answers.drop_first(), c)
    }
}

/// What the locations find in the answers, in order: for each location
/// whose command was answered and whose pointer names something in the
/// answer, that value with the location's tag.
pub open spec fn found_values(locs: Seq<LocationV>, answers: Seq<(CommandV, JsonV)>) -> Seq<
    (Option<Seq<char>>, JsonV),
>
    decreases locs.len(),
{
    if locs.len() == 0 {
        Seq::empty()
    } else {
        let rest = found_values(locs.drop_last(), answers);
        let l = locs.last();
        match answer_of(answers, l.command) {
            Some(a) => match pointer_spec(a, l.key) {
                Some(v) => rest.push((l.tag, v)),
                None => rest,
            },
            None => rest,
        }
    }
}

/// The value of a field: none when no location finds anything, else what
/// they find merged into an empty object, in order.
pub open spec fn field_value(locs: Seq<LocationV>, answers: Seq<(CommandV, JsonV)>) -> Option<JsonV> {
    let found = found_values(locs, answers);
    if found.len() == 0 {
        None
    } else {
        Some(merged_all(JsonV::Object(Seq::empty()), found))
    }
}

/// The values of the answers received.
pub open spec fn answers_view(answers: Seq<(MinerCommand, Json)>) -> Seq<(CommandV, JsonV)> {
    answers.map_values(|a: (MinerCommand, Json)| (a.0@, a.1@))
}

/// The answer to a command among the answers received.
pub fn find_answer<'a>(answers: &'a Vec<(MinerCommand, Json)>, c: &MinerCommand) -> (r: Option<&'a Json>)
    ensures
        view_opt(r) == answer_of(answers_view(answers@), c@),
{
    let ghost av = answers_view(answers@);
    let mut i: usize = 0;
    assert(av.skip(0) =~= av);
    while i < answers.len()
        invariant
            i <= answers@.len(),
            av == answers_view(answers@),
            answer_of(av, c@) == answer_of(av.skip(i as int), c@),
        decreases answers@.len() - i,
    {
        assert(av.skip(i as int).drop_first() =~= av.skip(i + 1));
        assert(av.skip(i as int)[0] == av[i as int]);
        if same_command(&answers[i].0, c) {
            return Some(&answers[i].1);
        }
        i = i + 1;
    }
    assert(av.skip(answers@.len() as int).len() == 0);
    None
}

/// The value of an optional document.
pub open spec fn owned_view(o: Option<Json>) -> Option<JsonV> {
    match o {
        Some(v) => Some(v@),
        None => None,
    }
}

/// The value of a field from the answers received (see [`field_value`]).
pub fn extract_field(locations: &Vec<DataLocation>, answers: &Vec<(MinerCommand, Json)>) -> (r: Option<Json>)
    ensures
        owned_view(r) == field_value(locations_view(locations@), answers_view(answers@)),
{
    let ghost lv = locations_view(locations@);
    let ghost av = answers_view(answers@);
    let mut found: Vec<(Option<String>, Json)> = Vec::new();
    let mut i: usize = 0;
    assert(lv.take(0) =~= Seq::<LocationV>::empty());
    assert(extracted_view(found@) =~= Seq::<(Option<Seq<char>>, JsonV)>::empty());
    while i < locations.len()
        invariant
            i <= locations@.len(),
            lv == locations_view(locations@),
            av == answers_view(answers@),
            extracted_view(found@) == found_values(lv.take(i as int), av),
        decreases locations@.len() - i,
    {
        let l = &locations[i];
        let ghost before = found@;
        assert(lv.take(i + 1).drop_last() =~= lv.take(i as int));
        assert(lv.take(i + 1).last() == l@);
        match find_answer(answers, &l.command) {
            Some(a) => match a.pointer(l.key) {
                Some(v) => {
                    let tag = match l.tag {
                        Some(t) => Some(t.to_owned()),
                        None => None,
                    };
                    let ghost tv = match l.tag {
                        Some(t) => Some(t@),
                        None => None,
                    };
                    found.push((tag, v.duplicate()));
                    assert(extracted_view(found@) =~= extracted_view(before).push((tv, v@)));
                },
                None => {},
            },
            None => {},
        }
        i = i + 1;
    }
    assert(lv.take(locations@.len() as int) =~= lv);
    combine_extracted(found)
}

/// Whether a command is among a list of commands.
pub open spec fn has_command(cs: Seq<CommandV>, c: CommandV) -> bool {
    exists|i: int| 0 <= i < cs.len() && cs[i] == c
}

/// Whether no command occurs twice in a list.
pub open spec fn distinct_commands(cs: Seq<CommandV>) -> bool {
    forall|i: int, j: int| 0 <= i < j < cs.len() ==> cs[i] != cs[j]
}

/// The values of a list of commands.
pub open spec fn commands_view(cs: Seq<MinerCommand>) -> Seq<CommandV> {
    cs.map_values(|c: MinerCommand| c@)
}

/// Whether one of the first `n` locations names the command.
pub open spec fn named_by(locs: Seq<DataLocation>, c: CommandV, n: int) -> bool {
    exists|i: int| 0 <= i < n && #[trigger] locs[i].command@ == c
}

/// The commands needed to collect the given locations: each command a
/// location names, exactly once, and no other.
pub fn required_commands(locations: &Vec<DataLocation>) -> (r: Vec<MinerCommand>)
    ensures
        distinct_commands(commands_view(r@)),
        forall|i: int| 0 <= i < locations@.len() ==> has_command(commands_view(r@), #[trigger] locations@[i].command@),
        forall|j: int| 0 <= j < r@.len() ==> named_by(locations@, #[trigger] commands_view(r@)[j], locations@.len() as int),
{
    let mut out: Vec<MinerCommand> = Vec::new();
    let mut i: usize = 0;
    while i < locations.len()
        invariant
            i <= locations@.len(),
            distinct_commands(commands_view(out@)),
            forall|m: int| 0 <= m < i ==> has_command(commands_view(out@), #[trigger] locations@[m].command@),
            forall|j: int| 0 <= j < out@.len() ==> named_by(locations@, #[trigger] commands_view(out@)[j], i as int),
        decreases locations@.len() - i,
    {
        let c = locations[i].command;
        let mut seen = false;
        let mut j: usize = 0;
        while j < out.len()
            invariant
                j <= out@.len(),
                !seen ==> forall|k: int| 0 <= k < j ==> commands_view(out@)[k] != c@,
                seen ==> has_command(commands_view(out@), c@),
            decreases out@.len() - j,
        {
            if same_command(&out[j], &c) {
                assert(commands_view(out@)[j as int] == c@);
                seen = true;
            }
            j = j + 1;
        }
        let ghost before = out@;
        assert forall|j2: int| 0 <= j2 < before.len() implies named_by(locations@, #[trigger] commands_view(before)[j2], i + 1) by {
            let m = choose|m: int| 0 <= m < i && #[trigger] locations@[m].command@ == commands_view(before)[j2];
        }
        if !seen {
            out.push(c);
            assert(commands_view(out@) =~= commands_view(before).push(c@));
            assert(locations@[i as int].command@ == c@);
            assert forall|m: int| 0 <= m < i + 1 implies has_command(commands_view(out@), #[trigger] locations@[m].command@) by {
                if m < i {
                    let k = choose|k: int| 0 <= k < before.len() && commands_view(before)[k] == locations@[m].command@;
                    assert(commands_view(out@)[k] == commands_view(before)[k]);
                } else {
                    assert(commands_view(out@)[before.len() as int] == locations@[m].command@);
                }
            }
            assert forall|j2: int| 0 <= j2 < out@.len() implies named_by(locations@, #[trigger] commands_view(out@)[j2], i + 1) by {
                if j2 < before.len() {
                    assert(commands_view(out@)[j2] == commands_view(before)[j2]);
                } else {
                    assert(locations@[i as int].command@ == commands_view(out@)[j2]);
                }
            }
        } else {
            assert(has_command(commands_view(out@), locations@[i as int].command@));
        }
        i = i + 1;
    }
    out
}

} // verus!
