//! Side-effect-free preview of the forwardings that `ssh -G` reports.
use crate::application::hosts::{HostCatalog, HostError, ProcessOutput};
use crate::domain::host;
use crate::domain::host::HostAlias;
use crate::domain::rule;
use crate::domain::rule::{BindAddress, DestinationHost, Forwarding, ForwardingModel, Rule, RuleId};
use crate::domain::validation;
use crate::domain::validation::addresses_overlap;
use crate::text;
use vstd::prelude::*;
use vstd::slice::slice_subrange;
use vstd::string::*;

verus! {

#[derive(Debug, PartialEq, Eq, Hash)]
pub enum ImportForwarding {
    Local {
        bind_address: String,
        bind_port: u16,
        destination_host: String,
        destination_port: u16,
    },
    Remote {
        bind_address: String,
        bind_port: u16,
        destination_host: String,
        destination_port: u16,
    },
    Dynamic { bind_address: String, bind_port: u16 },
}

#[derive(Clone, Copy, Debug, PartialEq, Eq, Structural)]
pub enum DirectiveKind {
    Local,
    Remote,
    Dynamic,
}

#[derive(Clone, Debug, PartialEq, Eq)]
pub enum ImportClassification {
    Supported,
    DuplicateDirective { first_index: usize },
    DuplicateRule { rule_id: RuleId, running: bool },
    Conflict { rule_id: Option<RuleId>, running: bool },
    Unsupported { reason: UnsupportedReason },
    Invalid { reason: InvalidReason },
}

#[derive(Clone, Copy, Debug, PartialEq, Eq, Structural)]
pub enum UnsupportedReason {
    UnixSocket,
    RemoteDynamic,
}

#[derive(Clone, Copy, Debug, PartialEq, Eq, Structural)]
pub enum InvalidReason {
    Syntax,
    BindAddress,
    DestinationHost,
    Port,
    NonUtf8Output,
}

#[derive(Debug, PartialEq, Eq)]
pub struct ImportCandidate {
    pub kind: DirectiveKind,
    pub forwarding: Option<ImportForwarding>,
    pub classification: ImportClassification,
}

#[derive(Debug, PartialEq, Eq)]
pub struct ImportPreview {
    pub ssh_host_alias: String,
    pub candidates: Vec<ImportCandidate>,
}

// ---------------------------------------------------------------------------
// What these values say
// ---------------------------------------------------------------------------
impl View for ImportForwarding {
    type V = ForwardingModel;

    open spec fn view(&self) -> ForwardingModel {
        match self {
            ImportForwarding::Local {
                bind_address,
                bind_port,
                destination_host,
                destination_port,
            } => ForwardingModel::Local {
                bind_address: bind_address@,
                bind_port: *bind_port,
                destination_host: destination_host@,
                destination_port: *destination_port,
            },
            ImportForwarding::Remote {
                bind_address,
                bind_port,
                destination_host,
                destination_port,
            } => ForwardingModel::Remote {
                bind_address: bind_address@,
                bind_port: *bind_port,
                destination_host: destination_host@,
                destination_port: *destination_port,
            },
            ImportForwarding::Dynamic { bind_address, bind_port } => ForwardingModel::Dynamic {
                bind_address: bind_address@,
                bind_port: *bind_port,
            },
        }
    }
}

/// What a classification says.
pub enum Verdict {
    Supported,
    DuplicateDirective { first_index: int },
    DuplicateRule { rule_id: u128, running: bool },
    Conflict { rule_id: Option<u128>, running: bool },
    Unsupported { reason: UnsupportedReason },
    Invalid { reason: InvalidReason },
}

/// What a candidate says.
pub struct CandidateModel {
    pub kind: DirectiveKind,
    pub forwarding: Option<ForwardingModel>,
    pub verdict: Verdict,
}

impl View for ImportClassification {
    type V = Verdict;

    open spec fn view(&self) -> Verdict {
        match self {
            ImportClassification::Supported => Verdict::Supported,
            ImportClassification::DuplicateDirective { first_index } => {
                Verdict::DuplicateDirective { first_index: *first_index as int }
            },
            ImportClassification::DuplicateRule { rule_id, running } => Verdict::DuplicateRule {
                rule_id: rule_id@,
                running: *running,
            },
            ImportClassification::Conflict { rule_id, running } => Verdict::Conflict {
                rule_id: match rule_id {
                    Some(id) => Some(id@),
                    None => None,
                },
                running: *running,
            },
            ImportClassification::Unsupported { reason } => Verdict::Unsupported {
                reason: *reason,
            },
            ImportClassification::Invalid { reason } => Verdict::Invalid { reason: *reason },
        }
    }
}

impl View for ImportCandidate {
    type V = CandidateModel;

    open spec fn view(&self) -> CandidateModel {
        CandidateModel {
            kind: self.kind,
            forwarding: match self.forwarding {
                Some(forwarding) => Some(forwarding@),
                None => None,
            },
            verdict: self.classification@,
        }
    }
}

pub open spec fn candidate_models(list: Seq<ImportCandidate>) -> Seq<CandidateModel> {
    list.map_values(|c: ImportCandidate| c@)
}

pub open spec fn uuids(list: Seq<RuleId>) -> Seq<u128> {
    list.map_values(|id: RuleId| id@)
}

// ---------------------------------------------------------------------------
// Reading directives
// ---------------------------------------------------------------------------
/// Why a directive gives no forwarding.
#[derive(Clone, Copy, Debug, PartialEq, Eq, Structural)]
pub enum ParseFailure {
    Unsupported(UnsupportedReason),
    Invalid(InvalidReason),
}

/// Host and port of an endpoint: `[host]:port`, or split at the last colon.
pub open spec fn endpoint_parts(s: Seq<char>) -> Option<(Seq<char>, Seq<char>)> {
    if s.len() > 0 && s[0] == '[' {
        let rest = s.drop_first();
        let end = text::first_of(rest, ']');
        if end + 1 < rest.len() && rest[end + 1] == ':' {
            Some((rest.take(end), rest.skip(end + 2)))
        } else {
            None
        }
    } else {
        let colon = text::last_of(s, ':');
        if colon >= 0 {
            Some((s.take(colon), s.skip(colon + 1)))
        } else {
            None
        }
    }
}

pub open spec fn port_of(s: Seq<char>) -> Result<u16, ParseFailure> {
    match text::parsed_u16(s) {
        Some(port) => if port != 0 {
            Ok(port)
        } else {
            Err(ParseFailure::Invalid(InvalidReason::Port))
        },
        None => Err(ParseFailure::Invalid(InvalidReason::Port)),
    }
}

pub open spec fn endpoint_of(s: Seq<char>) -> Result<(Seq<char>, u16), ParseFailure> {
    match endpoint_parts(s) {
        Some((host, port)) => if host.len() == 0 {
            Err(ParseFailure::Invalid(InvalidReason::Syntax))
        } else {
            match port_of(port) {
                Ok(port) => Ok((host, port)),
                Err(failure) => Err(failure),
            }
        },
        None => Err(ParseFailure::Invalid(InvalidReason::Syntax)),
    }
}

/// A port alone listens on the default address.
pub open spec fn listener_of(s: Seq<char>, default_bind: Seq<char>) -> Result<
    (Seq<char>, u16),
    ParseFailure,
> {
    if text::all_digits(s) {
        match port_of(s) {
            Ok(port) => Ok((default_bind, port)),
            Err(failure) => Err(failure),
        }
    } else {
        match endpoint_of(s) {
            Ok((address, port)) => if rule::bindable(address) {
                Ok((address, port))
            } else {
                Err(ParseFailure::Invalid(InvalidReason::BindAddress))
            },
            Err(failure) => Err(failure),
        }
    }
}

pub open spec fn destination_of(s: Seq<char>) -> Result<(Seq<char>, u16), ParseFailure> {
    match endpoint_of(s) {
        Ok((host, port)) => if rule::destination_refusal(host) is None {
            Ok((host, port))
        } else {
            Err(ParseFailure::Invalid(InvalidReason::DestinationHost))
        },
        Err(failure) => Err(failure),
    }
}

pub open spec fn has_socket(fields: Seq<Seq<char>>) -> bool {
    exists|i: int| 0 <= i < fields.len() && (#[trigger] fields[i]).contains('/')
}

/// The forwarding that a directive with this value asks for.
pub open spec fn forwarding_of(
    kind: DirectiveKind,
    value: Seq<char>,
    default_bind: Seq<char>,
) -> Result<ForwardingModel, ParseFailure> {
    let fields = text::words(value);
    let syntax = Err(ParseFailure::Invalid(InvalidReason::Syntax));
    if has_socket(fields) {
        Err(ParseFailure::Unsupported(UnsupportedReason::UnixSocket))
    } else {
        match kind {
            DirectiveKind::Local => if fields.len() == 2 {
                match listener_of(fields[0], default_bind) {
                    Ok((bind_address, bind_port)) => match destination_of(fields[1]) {
                        Ok((destination_host, destination_port)) => Ok(
                            ForwardingModel::Local {
                                bind_address,
                                bind_port,
                                destination_host,
                                destination_port,
                            },
                        ),
                        Err(failure) => Err(failure),
                    },
                    Err(failure) => Err(failure),
                }
            } else {
                syntax
            },
            DirectiveKind::Remote => if fields.len() == 2 {
                match listener_of(fields[0], "localhost"@) {
                    Ok((bind_address, bind_port)) => match destination_of(fields[1]) {
                        Ok((destination_host, destination_port)) => Ok(
                            ForwardingModel::Remote {
                                bind_address,
                                bind_port,
                                destination_host,
                                destination_port,
                            },
                        ),
                        Err(failure) => Err(failure),
                    },
                    Err(failure) => Err(failure),
                }
            } else if fields.len() == 1 {
                match listener_of(fields[0], "localhost"@) {
                    Ok(_) => Err(ParseFailure::Unsupported(UnsupportedReason::RemoteDynamic)),
                    Err(failure) => Err(failure),
                }
            } else {
                syntax
            },
            DirectiveKind::Dynamic => if fields.len() == 1 {
                match listener_of(fields[0], default_bind) {
                    Ok((bind_address, bind_port)) => Ok(
                        ForwardingModel::Dynamic { bind_address, bind_port },
                    ),
                    Err(failure) => Err(failure),
                }
            } else {
                syntax
            },
        }
    }
}

/// The keyword of a line in lower case and the trimmed value behind it.
pub open spec fn setting_of(line: Seq<char>) -> Option<(Seq<char>, Seq<char>)> {
    let k = text::first_space(line);
    if k < line.len() {
        Some((text::lowered(line.take(k)), text::trim(line.skip(k + 1))))
    } else {
        None
    }
}

pub open spec fn kind_of(keyword: Seq<char>) -> Option<DirectiveKind> {
    if keyword == "localforward"@ {
        Some(DirectiveKind::Local)
    } else if keyword == "remoteforward"@ {
        Some(DirectiveKind::Remote)
    } else if keyword == "dynamicforward"@ {
        Some(DirectiveKind::Dynamic)
    } else {
        None
    }
}

pub open spec fn opens_gateway(line: Seq<char>) -> bool {
    match setting_of(line) {
        Some((keyword, value)) => keyword == "gatewayports"@ && value == "yes"@,
        None => false,
    }
}

/// Where an omitted local address listens: everywhere if `GatewayPorts` is `yes`.
pub open spec fn default_bind_of(lines: Seq<Seq<char>>) -> Seq<char> {
    if exists|i: int| 0 <= i < lines.len() && opens_gateway(#[trigger] lines[i]) {
        "*"@
    } else {
        "localhost"@
    }
}

// ---------------------------------------------------------------------------
// Judging candidates
// ---------------------------------------------------------------------------
/// What candidates are held against.
pub struct Surroundings {
    pub alias: Seq<char>,
    pub existing: Seq<rule::RuleModel>,
    pub running: Seq<u128>,
}

/// The two would listen on one socket of the same machine.
pub open spec fn forwardings_conflict(a: ForwardingModel, b: ForwardingModel) -> bool {
    &&& (a is Remote <==> b is Remote)
    &&& rule::bindable(a.bind_address())
    &&& rule::bindable(b.bind_address())
    &&& a.bind_port() == b.bind_port()
    &&& validation::overlap(
        validation::binding(a.bind_address()),
        validation::binding(b.bind_address()),
    )
}

/// As `forwardings_conflict`, with a rule. Remote listeners meet on one host only.
pub open spec fn conflicts_with_rule(
    alias: Seq<char>,
    f: ForwardingModel,
    m: rule::RuleModel,
) -> bool {
    &&& (f is Remote <==> m.forwarding is Remote)
    &&& (f is Remote ==> m.ssh_host_alias == alias)
    &&& rule::bindable(f.bind_address())
    &&& f.bind_port() == m.forwarding.bind_port()
    &&& validation::overlap(
        validation::binding(f.bind_address()),
        validation::binding(m.forwarding.bind_address()),
    )
}

/// The first candidate with this forwarding, or the number of candidates.
pub open spec fn first_with(earlier: Seq<CandidateModel>, f: ForwardingModel) -> int
    decreases earlier.len(),
{
    if earlier.len() == 0 {
        0
    } else {
        let k = first_with(earlier.drop_last(), f);
        if k < earlier.len() - 1 || earlier.last().forwarding == Some(f) {
            k
        } else {
            earlier.len() as int
        }
    }
}

/// The first rule of the host with this forwarding, or the number of rules.
pub open spec fn first_same_rule(
    existing: Seq<rule::RuleModel>,
    alias: Seq<char>,
    f: ForwardingModel,
) -> int
    decreases existing.len(),
{
    if existing.len() == 0 {
        0
    } else {
        let k = first_same_rule(existing.drop_last(), alias, f);
        if k < existing.len() - 1 || (existing.last().ssh_host_alias == alias
            && existing.last().forwarding == f) {
            k
        } else {
            existing.len() as int
        }
    }
}

/// The first rule that conflicts, or the number of rules.
pub open spec fn first_conflict(
    existing: Seq<rule::RuleModel>,
    alias: Seq<char>,
    f: ForwardingModel,
) -> int
    decreases existing.len(),
{
    if existing.len() == 0 {
        0
    } else {
        let k = first_conflict(existing.drop_last(), alias, f);
        if k < existing.len() - 1 || conflicts_with_rule(alias, f, existing.last()) {
            k
        } else {
            existing.len() as int
        }
    }
}

pub open spec fn conflicts_with_accepted(
    earlier: Seq<CandidateModel>,
    f: ForwardingModel,
) -> bool {
    exists|i: int|
        0 <= i < earlier.len() && (#[trigger] earlier[i]).verdict is Supported
            && earlier[i].forwarding is Some && forwardings_conflict(f, earlier[i].forwarding->0)
}

/// The verdict on a forwarding behind `earlier` candidates: a repetition of one of them, a rule
/// that exists, a conflict with an accepted candidate or with a rule, or none of these.
pub open spec fn verdict_on(
    around: Surroundings,
    earlier: Seq<CandidateModel>,
    f: ForwardingModel,
) -> Verdict {
    let seen = first_with(earlier, f);
    let same = first_same_rule(around.existing, around.alias, f);
    let other = first_conflict(around.existing, around.alias, f);
    if seen < earlier.len() {
        Verdict::DuplicateDirective { first_index: seen }
    } else if same < around.existing.len() {
        let id = around.existing[same].id;
        Verdict::DuplicateRule { rule_id: id, running: around.running.contains(id) }
    } else if conflicts_with_accepted(earlier, f) {
        Verdict::Conflict { rule_id: None, running: false }
    } else if other < around.existing.len() {
        let id = around.existing[other].id;
        Verdict::Conflict { rule_id: Some(id), running: around.running.contains(id) }
    } else {
        Verdict::Supported
    }
}

pub open spec fn candidate_of(
    around: Surroundings,
    earlier: Seq<CandidateModel>,
    kind: DirectiveKind,
    parsed: Result<ForwardingModel, ParseFailure>,
) -> CandidateModel {
    match parsed {
        Ok(f) => CandidateModel {
            kind,
            forwarding: Some(f),
            verdict: verdict_on(around, earlier, f),
        },
        Err(ParseFailure::Unsupported(reason)) => CandidateModel {
            kind,
            forwarding: None,
            verdict: Verdict::Unsupported { reason },
        },
        Err(ParseFailure::Invalid(reason)) => CandidateModel {
            kind,
            forwarding: None,
            verdict: Verdict::Invalid { reason },
        },
    }
}

/// The forwarding directive of a line, if it is one.
pub open spec fn directive_of(line: Seq<char>) -> Option<(DirectiveKind, Seq<char>)> {
    match setting_of(line) {
        Some((keyword, value)) => match kind_of(keyword) {
            Some(kind) => Some((kind, value)),
            None => None,
        },
        None => None,
    }
}

/// One candidate for each forwarding directive, in order.
pub open spec fn candidates_of(
    around: Surroundings,
    default_bind: Seq<char>,
    lines: Seq<Seq<char>>,
) -> Seq<CandidateModel>
    decreases lines.len(),
{
    if lines.len() == 0 {
        Seq::empty()
    } else {
        let earlier = candidates_of(around, default_bind, lines.drop_last());
        match directive_of(lines.last()) {
            Some((kind, value)) => earlier.push(
                candidate_of(around, earlier, kind, forwarding_of(kind, value, default_bind)),
            ),
            None => earlier,
        }
    }
}

/// The candidates in what `ssh -G` printed.
pub open spec fn preview_of(around: Surroundings, output: Seq<char>) -> Seq<CandidateModel> {
    let lines = text::lines(output);
    candidates_of(around, default_bind_of(lines), lines)
}

/// A candidate that can be saved has a forwarding, and one that repeats a directive names an
/// earlier candidate with the same forwarding.
pub open spec fn coherent(candidates: Seq<CandidateModel>) -> bool {
    forall|i: int|
        0 <= i < candidates.len() ==> (match (#[trigger] candidates[i]).verdict {
            Verdict::Supported => candidates[i].forwarding is Some,
            Verdict::DuplicateDirective { first_index } => 0 <= first_index < i
                && candidates[first_index].forwarding == candidates[i].forwarding,
            _ => true,
        })
}

proof fn first_with_is_a_match(earlier: Seq<CandidateModel>, f: ForwardingModel)
    ensures
        0 <= first_with(earlier, f) <= earlier.len(),
        first_with(earlier, f) < earlier.len() ==> earlier[first_with(earlier, f)].forwarding
            == Some(f),
    decreases earlier.len(),
{
    if earlier.len() > 0 {
        first_with_is_a_match(earlier.drop_last(), f);
    }
}

/// Every preview is coherent.
pub proof fn previews_are_coherent(
    around: Surroundings,
    default_bind: Seq<char>,
    lines: Seq<Seq<char>>,
)
    ensures
        coherent(candidates_of(around, default_bind, lines)),
    decreases lines.len(),
{
    if lines.len() > 0 {
        let earlier = candidates_of(around, default_bind, lines.drop_last());
        let all = candidates_of(around, default_bind, lines);
        previews_are_coherent(around, default_bind, lines.drop_last());
        assert forall|i: int| 0 <= i < all.len() implies (match (#[trigger] all[i]).verdict {
            Verdict::Supported => all[i].forwarding is Some,
            Verdict::DuplicateDirective { first_index } => 0 <= first_index < i
                && all[first_index].forwarding == all[i].forwarding,
            _ => true,
        }) by {
            if i < earlier.len() {
                assert(all[i] == earlier[i]);
                match earlier[i].verdict {
                    Verdict::DuplicateDirective { first_index } => {
                        assert(all[first_index] == earlier[first_index]);
                    },
                    _ => {},
                }
            } else {
                match all[i].forwarding {
                    Some(f) => {
                        first_with_is_a_match(earlier, f);
                    },
                    None => {},
                }
            }
        }
    }
}

// ---------------------------------------------------------------------------
// The code
// ---------------------------------------------------------------------------
fn parse_port(value: &[char]) -> (r: Result<u16, ParseFailure>)
    ensures
        r == port_of(value@),
{
    match text::parse_u16(value) {
        Some(port) => if port != 0 {
            Ok(port)
        } else {
            Err(ParseFailure::Invalid(InvalidReason::Port))
        },
        None => Err(ParseFailure::Invalid(InvalidReason::Port)),
    }
}

fn split_endpoint(value: &[char]) -> (r: Result<(String, u16), ParseFailure>)
    ensures
        match r {
            Ok((host, port)) => endpoint_of(value@) == Ok::<(Seq<char>, u16), ParseFailure>(
                (host@, port),
            ),
            Err(failure) => endpoint_of(value@) == Err::<(Seq<char>, u16), ParseFailure>(failure),
        },
{
    let syntax = ParseFailure::Invalid(InvalidReason::Syntax);
    let (host, port) = if value.len() > 0 && value[0] == '[' {
        let rest = slice_subrange(value, 1, value.len());
        assert(rest@ =~= value@.drop_first());
        let end: usize = text::find_first(rest, ']');
        if rest.len() - end < 2 {
            return Err(syntax);
        }
        if rest[end + 1] != ':' {
            return Err(syntax);
        }
        let host = slice_subrange(rest, 0, end);
        let port = slice_subrange(rest, end + 2, rest.len());
        assert(host@ =~= rest@.take(end as int));
        assert(port@ =~= rest@.skip(end as int + 2));
        (host, port)
    } else {
        match text::find_last(value, ':') {
            Some(colon) => {
                let host = slice_subrange(value, 0, colon);
                let port = slice_subrange(value, colon + 1, value.len());
                assert(host@ =~= value@.take(colon as int));
                assert(port@ =~= value@.skip(colon as int + 1));
                (host, port)
            },
            None => {
                return Err(syntax);
            },
        }
    };
    if host.len() == 0 {
        return Err(syntax);
    }
    match parse_port(port) {
        Ok(port) => Ok((text::text_of(host), port)),
        Err(failure) => Err(failure),
    }
}

fn parse_listener(value: &[char], default_bind: &str) -> (r: Result<(String, u16), ParseFailure>)
    ensures
        match r {
            Ok((found, port)) => listener_of(value@, default_bind@) == Ok::<
                (Seq<char>, u16),
                ParseFailure,
            >((found@, port)),
            Err(failure) => listener_of(value@, default_bind@) == Err::<
                (Seq<char>, u16),
                ParseFailure,
            >(failure),
        },
{
    if text::every_digit(value) {
        return match parse_port(value) {
            Ok(port) => Ok((default_bind.to_owned(), port)),
            Err(failure) => Err(failure),
        };
    }
    match split_endpoint(value) {
        Ok((found, port)) => match BindAddress::new(found.as_str()) {
            Ok(_) => Ok((found, port)),
            Err(_) => Err(ParseFailure::Invalid(InvalidReason::BindAddress)),
        },
        Err(failure) => Err(failure),
    }
}

fn parse_destination(value: &[char]) -> (r: Result<(String, u16), ParseFailure>)
    ensures
        match r {
            Ok((host, port)) => destination_of(value@) == Ok::<(Seq<char>, u16), ParseFailure>(
                (host@, port),
            ),
            Err(failure) => destination_of(value@) == Err::<(Seq<char>, u16), ParseFailure>(
                failure,
            ),
        },
{
    match split_endpoint(value) {
        Ok((host, port)) => match DestinationHost::new(host.as_str()) {
            Ok(_) => Ok((host, port)),
            Err(_) => Err(ParseFailure::Invalid(InvalidReason::DestinationHost)),
        },
        Err(failure) => Err(failure),
    }
}

fn any_socket(fields: &Vec<Vec<char>>) -> (r: bool)
    ensures
        r == has_socket(text::runs(fields@)),
{
    let ghost all = text::runs(fields@);
    let mut i: usize = 0;
    while i < fields.len()
        invariant
            i <= fields@.len(),
            all == text::runs(fields@),
            forall|k: int| 0 <= k < i ==> !(#[trigger] all[k]).contains('/'),
        decreases fields.len() - i,
    {
        assert(all[i as int] == fields@[i as int]@);
        if text::has_char(fields[i].as_slice(), '/') {
            return true;
        }
        i = i + 1;
    }
    false
}

fn parse_forward(kind: DirectiveKind, value: &[char], default_bind: &str) -> (r: Result<
    ImportForwarding,
    ParseFailure,
>)
    ensures
        match r {
            Ok(f) => forwarding_of(kind, value@, default_bind@) == Ok::<
                ForwardingModel,
                ParseFailure,
            >(f@),
            Err(failure) => forwarding_of(kind, value@, default_bind@) == Err::<
                ForwardingModel,
                ParseFailure,
            >(failure),
        },
{
    let fields = text::split_words(value);
    let syntax = ParseFailure::Invalid(InvalidReason::Syntax);
    if any_socket(&fields) {
        return Err(ParseFailure::Unsupported(UnsupportedReason::UnixSocket));
    }
    assert(text::runs(fields@).len() == fields@.len());
    assert(fields@.len() > 0 ==> text::runs(fields@)[0] == fields@[0]@);
    assert(fields@.len() > 1 ==> text::runs(fields@)[1] == fields@[1]@);
    match kind {
        DirectiveKind::Local => {
            if fields.len() != 2 {
                return Err(syntax);
            }
            let (bind_address, bind_port) = parse_listener(fields[0].as_slice(), default_bind)?;
            let (destination_host, destination_port) = parse_destination(fields[1].as_slice())?;
            Ok(
                ImportForwarding::Local {
                    bind_address,
                    bind_port,
                    destination_host,
                    destination_port,
                },
            )
        },
        DirectiveKind::Remote => {
            if fields.len() == 1 {
                parse_listener(fields[0].as_slice(), "localhost")?;
                return Err(ParseFailure::Unsupported(UnsupportedReason::RemoteDynamic));
            }
            if fields.len() != 2 {
                return Err(syntax);
            }
            let (bind_address, bind_port) = parse_listener(fields[0].as_slice(), "localhost")?;
            let (destination_host, destination_port) = parse_destination(fields[1].as_slice())?;
            Ok(
                ImportForwarding::Remote {
                    bind_address,
                    bind_port,
                    destination_host,
                    destination_port,
                },
            )
        },
        DirectiveKind::Dynamic => {
            if fields.len() != 1 {
                return Err(syntax);
            }
            let (bind_address, bind_port) = parse_listener(fields[0].as_slice(), default_bind)?;
            Ok(ImportForwarding::Dynamic { bind_address, bind_port })
        },
    }
}

/// Keyword in lower case and value of a line.
fn split_setting(line: &Vec<char>) -> (r: Option<(Vec<char>, Vec<char>)>)
    ensures
        match r {
            Some((keyword, value)) => setting_of(line@) == Some((keyword@, value@)),
            None => setting_of(line@) is None,
        },
{
    let all = line.as_slice();
    let k: usize = text::find_space(all);
    if k >= line.len() {
        return None;
    }
    let keyword = text::lowered_chars(slice_subrange(all, 0, k));
    let rest = slice_subrange(all, k + 1, all.len());
    assert(all@.subrange(0, k as int) =~= line@.take(k as int));
    assert(rest@ =~= line@.skip(k as int + 1));
    let value = text::trimmed(rest);
    Some((keyword, copy_chars(value)))
}

fn copy_chars(s: &[char]) -> (r: Vec<char>)
    ensures
        r@ == s@,
{
    let mut out: Vec<char> = Vec::new();
    let mut i: usize = 0;
    while i < s.len()
        invariant
            i <= s@.len(),
            out@ =~= s@.take(i as int),
        decreases s.len() - i,
    {
        out.push(s[i]);
        i = i + 1;
    }
    assert(s@.take(s@.len() as int) =~= s@);
    out
}

fn is_text(s: &Vec<char>, wanted: &str) -> (r: bool)
    ensures
        r == (s@ == wanted@),
{
    let chars = text::chars_of(wanted);
    text::same_chars(s.as_slice(), chars.as_slice())
}

fn directive_kind(keyword: &Vec<char>) -> (r: Option<DirectiveKind>)
    ensures
        r == kind_of(keyword@),
{
    if is_text(keyword, "localforward") {
        Some(DirectiveKind::Local)
    } else if is_text(keyword, "remoteforward") {
        Some(DirectiveKind::Remote)
    } else if is_text(keyword, "dynamicforward") {
        Some(DirectiveKind::Dynamic)
    } else {
        None
    }
}

fn effective_local_default_bind(lines: &Vec<Vec<char>>) -> (r: &'static str)
    ensures
        r@ == default_bind_of(text::runs(lines@)),
{
    let ghost all = text::runs(lines@);
    let mut i: usize = 0;
    while i < lines.len()
        invariant
            i <= lines@.len(),
            all == text::runs(lines@),
            forall|k: int| 0 <= k < i ==> !opens_gateway(#[trigger] all[k]),
        decreases lines.len() - i,
    {
        assert(all[i as int] == lines@[i as int]@);
        match split_setting(&lines[i]) {
            Some((keyword, value)) => {
                if is_text(&keyword, "gatewayports") && is_text(&value, "yes") {
                    assert(opens_gateway(all[i as int]));
                    return "*";
                }
            },
            None => {},
        }
        i = i + 1;
    }
    "localhost"
}

fn same_forwarding(a: &ImportForwarding, b: &ImportForwarding) -> (r: bool)
    ensures
        r == (a@ == b@),
{
    match (a, b) {
        (
            ImportForwarding::Local {
                bind_address: x,
                bind_port: p,
                destination_host: h,
                destination_port: d,
            },
            ImportForwarding::Local {
                bind_address: y,
                bind_port: q,
                destination_host: i,
                destination_port: e,
            },
        ) => text::same(x, y) && *p == *q && text::same(h, i) && *d == *e,
        (
            ImportForwarding::Remote {
                bind_address: x,
                bind_port: p,
                destination_host: h,
                destination_port: d,
            },
            ImportForwarding::Remote {
                bind_address: y,
                bind_port: q,
                destination_host: i,
                destination_port: e,
            },
        ) => text::same(x, y) && *p == *q && text::same(h, i) && *d == *e,
        (
            ImportForwarding::Dynamic { bind_address: x, bind_port: p },
            ImportForwarding::Dynamic { bind_address: y, bind_port: q },
        ) => text::same(x, y) && *p == *q,
        _ => false,
    }
}

fn forwarding_matches_rule(forwarding: &ImportForwarding, existing: &Rule) -> (r: bool)
    ensures
        r == (forwarding@ == existing@.forwarding),
{
    match (forwarding, existing.forwarding()) {
        (
            ImportForwarding::Local { bind_address, bind_port, destination_host, destination_port },
            Forwarding::Local(v),
        ) => text::same(bind_address, v.bind_address().as_str()) && *bind_port
            == v.bind_port().get() && text::same(destination_host, v.destination_host().as_str())
            && *destination_port == v.destination_port().get(),
        (
            ImportForwarding::Remote {
                bind_address,
                bind_port,
                destination_host,
                destination_port,
            },
            Forwarding::Remote(v),
        ) => text::same(bind_address, v.bind_address().as_str()) && *bind_port
            == v.bind_port().get() && text::same(destination_host, v.destination_host().as_str())
            && *destination_port == v.destination_port().get(),
        (ImportForwarding::Dynamic { bind_address, bind_port }, Forwarding::Dynamic(v)) => {
            text::same(bind_address, v.bind_address().as_str()) && *bind_port == v.bind_port().get()
        },
        _ => false,
    }
}

/// The address and port of a forwarding, and whether they are on the remote host.
fn listener(forwarding: &ImportForwarding) -> (r: (&str, u16, bool))
    ensures
        r.0@ == forwarding@.bind_address(),
        r.1 == forwarding@.bind_port(),
        r.2 == (forwarding@ is Remote),
{
    match forwarding {
        ImportForwarding::Local { bind_address, bind_port, .. } => (
            bind_address.as_str(),
            *bind_port,
            false,
        ),
        ImportForwarding::Remote { bind_address, bind_port, .. } => (
            bind_address.as_str(),
            *bind_port,
            true,
        ),
        ImportForwarding::Dynamic { bind_address, bind_port } => (
            bind_address.as_str(),
            *bind_port,
            false,
        ),
    }
}

fn forwards_conflict(left: &ImportForwarding, right: &ImportForwarding) -> (r: bool)
    ensures
        r == forwardings_conflict(left@, right@),
{
    let (left_address, left_port, left_remote) = listener(left);
    let (right_address, right_port, right_remote) = listener(right);
    left_remote == right_remote && BindAddress::new(left_address).is_ok() && BindAddress::new(
        right_address,
    ).is_ok() && left_port == right_port && addresses_overlap(left_address, right_address)
}

fn forwarding_conflicts_rule(alias: &str, forwarding: &ImportForwarding, existing: &Rule) -> (r:
    bool)
    ensures
        r == conflicts_with_rule(alias@, forwarding@, existing@),
{
    let (found, port, remote) = listener(forwarding);
    let (rule_address, rule_port, rule_remote) = match existing.forwarding() {
        Forwarding::Local(v) => (v.bind_address(), v.bind_port(), false),
        Forwarding::Remote(v) => (v.bind_address(), v.bind_port(), true),
        Forwarding::Dynamic(v) => (v.bind_address(), v.bind_port(), false),
    };
    remote == rule_remote && (!remote || text::same(existing.ssh_host_alias().as_str(), alias))
        && BindAddress::new(found).is_ok() && port == rule_port.get() && addresses_overlap(
        found,
        rule_address.as_str(),
    )
}

fn is_running(running: &[RuleId], id: RuleId) -> (r: bool)
    ensures
        r == uuids(running@).contains(id@),
{
    let ghost all = uuids(running@);
    let mut i: usize = 0;
    while i < running.len()
        invariant
            i <= running@.len(),
            all == uuids(running@),
            forall|k: int| 0 <= k < i ==> all[k] != id@,
        decreases running.len() - i,
    {
        assert(all[i as int] == running@[i as int]@);
        if running[i].as_uuid() == id.as_uuid() {
            return true;
        }
        i = i + 1;
    }
    false
}

fn find_candidate(earlier: &Vec<ImportCandidate>, forwarding: &ImportForwarding) -> (r: usize)
    ensures
        r == first_with(candidate_models(earlier@), forwarding@),
        r <= earlier@.len(),
{
    let ghost all = candidate_models(earlier@);
    let mut found: usize = 0;
    let mut i: usize = 0;
    assert(all.take(0) =~= Seq::<CandidateModel>::empty());
    while i < earlier.len()
        invariant
            i <= earlier@.len(),
            found <= i,
            all == candidate_models(earlier@),
            found == first_with(all.take(i as int), forwarding@),
        decreases earlier.len() - i,
    {
        assert(all.take(i as int + 1).drop_last() =~= all.take(i as int));
        assert(all.take(i as int + 1).last() == earlier@[i as int]@);
        if found == i {
            let same = match &earlier[i].forwarding {
                Some(other) => same_forwarding(other, forwarding),
                None => false,
            };
            if !same {
                found = i + 1;
            }
        }
        i = i + 1;
    }
    assert(all.take(all.len() as int) =~= all);
    found
}

fn find_same_rule(existing: &[Rule], alias: &str, forwarding: &ImportForwarding) -> (r: usize)
    ensures
        r == first_same_rule(rule::models(existing@), alias@, forwarding@),
        r <= existing@.len(),
{
    let ghost all = rule::models(existing@);
    let mut found: usize = 0;
    let mut i: usize = 0;
    assert(all.take(0) =~= Seq::<rule::RuleModel>::empty());
    while i < existing.len()
        invariant
            i <= existing@.len(),
            found <= i,
            all == rule::models(existing@),
            found == first_same_rule(all.take(i as int), alias@, forwarding@),
        decreases existing.len() - i,
    {
        assert(all.take(i as int + 1).drop_last() =~= all.take(i as int));
        assert(all.take(i as int + 1).last() == existing@[i as int]@);
        if found == i && !(text::same(existing[i].ssh_host_alias().as_str(), alias)
            && forwarding_matches_rule(forwarding, &existing[i])) {
            found = i + 1;
        }
        i = i + 1;
    }
    assert(all.take(all.len() as int) =~= all);
    found
}

fn find_conflict(existing: &[Rule], alias: &str, forwarding: &ImportForwarding) -> (r: usize)
    ensures
        r == first_conflict(rule::models(existing@), alias@, forwarding@),
        r <= existing@.len(),
{
    let ghost all = rule::models(existing@);
    let mut found: usize = 0;
    let mut i: usize = 0;
    assert(all.take(0) =~= Seq::<rule::RuleModel>::empty());
    while i < existing.len()
        invariant
            i <= existing@.len(),
            found <= i,
            all == rule::models(existing@),
            found == first_conflict(all.take(i as int), alias@, forwarding@),
        decreases existing.len() - i,
    {
        assert(all.take(i as int + 1).drop_last() =~= all.take(i as int));
        assert(all.take(i as int + 1).last() == existing@[i as int]@);
        if found == i && !forwarding_conflicts_rule(alias, forwarding, &existing[i]) {
            found = i + 1;
        }
        i = i + 1;
    }
    assert(all.take(all.len() as int) =~= all);
    found
}

fn any_accepted_conflict(earlier: &Vec<ImportCandidate>, forwarding: &ImportForwarding) -> (r: bool)
    ensures
        r == conflicts_with_accepted(candidate_models(earlier@), forwarding@),
{
    let ghost all = candidate_models(earlier@);
    let mut i: usize = 0;
    while i < earlier.len()
        invariant
            i <= earlier@.len(),
            all == candidate_models(earlier@),
            forall|k: int|
                0 <= k < i ==> !((#[trigger] all[k]).verdict is Supported && all[k].forwarding is Some
                    && forwardings_conflict(forwarding@, all[k].forwarding->0)),
        decreases earlier.len() - i,
    {
        assert(all[i as int] == earlier@[i as int]@);
        let supported = match &earlier[i].classification {
            ImportClassification::Supported => true,
            _ => false,
        };
        match &earlier[i].forwarding {
            Some(other) => {
                if supported && forwards_conflict(forwarding, other) {
                    return true;
                }
            },
            None => {},
        }
        i = i + 1;
    }
    false
}

fn classify(
    alias: &str,
    forwarding: &ImportForwarding,
    earlier: &Vec<ImportCandidate>,
    existing: &[Rule],
    running: &[RuleId],
) -> (r: ImportClassification)
    ensures
        r@ == verdict_on(
            Surroundings {
                alias: alias@,
                existing: rule::models(existing@),
                running: uuids(running@),
            },
            candidate_models(earlier@),
            forwarding@,
        ),
{
    let seen: usize = find_candidate(earlier, forwarding);
    if seen < earlier.len() {
        return ImportClassification::DuplicateDirective { first_index: seen };
    }
    let same: usize = find_same_rule(existing, alias, forwarding);
    if same < existing.len() {
        let rule_id = existing[same].id();
        return ImportClassification::DuplicateRule {
            rule_id,
            running: is_running(running, rule_id),
        };
    }
    if any_accepted_conflict(earlier, forwarding) {
        return ImportClassification::Conflict { rule_id: None, running: false };
    }
    let other: usize = find_conflict(existing, alias, forwarding);
    if other < existing.len() {
        let rule_id = existing[other].id();
        return ImportClassification::Conflict {
            rule_id: Some(rule_id),
            running: is_running(running, rule_id),
        };
    }
    ImportClassification::Supported
}

/// Lists the forwardings in the output of `ssh -G` for a host and says of each whether it can be
/// imported beside the existing rules.
pub fn preview_effective_forwards(
    alias: &str,
    output: &[u8],
    existing_rules: &[Rule],
    running_rule_ids: &[RuleId],
) -> (r: Result<ImportPreview, InvalidReason>)
    ensures
        match r {
            Ok(preview) => {
                &&& host::alias_refusal(alias@) is None
                &&& vstd::utf8::valid_utf8(output@)
                &&& preview.ssh_host_alias@ == alias@
                &&& candidate_models(preview.candidates@) == preview_of(
                    Surroundings {
                        alias: alias@,
                        existing: rule::models(existing_rules@),
                        running: uuids(running_rule_ids@),
                    },
                    vstd::utf8::decode_utf8(output@),
                )
                &&& coherent(candidate_models(preview.candidates@))
            },
            Err(reason) => if host::alias_refusal(alias@) is Some {
                reason == InvalidReason::Syntax
            } else {
                reason == InvalidReason::NonUtf8Output && !vstd::utf8::valid_utf8(output@)
            },
        },
{
    if HostAlias::new(alias).is_err() {
        return Err(InvalidReason::Syntax);
    }
    let found = match text::utf8_text(output) {
        Some(found) => found,
        None => {
            return Err(InvalidReason::NonUtf8Output);
        },
    };
    let chars = text::chars_of(found);
    let lines = text::split_lines(chars.as_slice());
    let default_bind = effective_local_default_bind(&lines);
    let ghost around = Surroundings {
        alias: alias@,
        existing: rule::models(existing_rules@),
        running: uuids(running_rule_ids@),
    };
    let ghost all = text::runs(lines@);
    let mut candidates: Vec<ImportCandidate> = Vec::new();
    let mut i: usize = 0;
    assert(all.take(0) =~= Seq::<Seq<char>>::empty());
    assert(candidate_models(candidates@) =~= Seq::<CandidateModel>::empty());
    while i < lines.len()
        invariant
            i <= lines@.len(),
            all == text::runs(lines@),
            around == (Surroundings {
                alias: alias@,
                existing: rule::models(existing_rules@),
                running: uuids(running_rule_ids@),
            }),
            candidate_models(candidates@) == candidates_of(
                around,
                default_bind@,
                all.take(i as int),
            ),
        decreases lines.len() - i,
    {
        assert(all.take(i as int + 1).drop_last() =~= all.take(i as int));
        assert(all.take(i as int + 1).last() == lines@[i as int]@);
        let directive = match split_setting(&lines[i]) {
            Some((keyword, value)) => match directive_kind(&keyword) {
                Some(kind) => Some((kind, value)),
                None => None,
            },
            None => None,
        };
        match directive {
            Some((kind, value)) => {
                let candidate = match parse_forward(kind, value.as_slice(), default_bind) {
                    Ok(forwarding) => {
                        let classification = classify(
                            alias,
                            &forwarding,
                            &candidates,
                            existing_rules,
                            running_rule_ids,
                        );
                        ImportCandidate { kind, forwarding: Some(forwarding), classification }
                    },
                    Err(ParseFailure::Unsupported(reason)) => ImportCandidate {
                        kind,
                        forwarding: None,
                        classification: ImportClassification::Unsupported { reason },
                    },
                    Err(ParseFailure::Invalid(reason)) => ImportCandidate {
                        kind,
                        forwarding: None,
                        classification: ImportClassification::Invalid { reason },
                    },
                };
                assert(candidate_models(candidates@.push(candidate)) =~= candidate_models(
                    candidates@,
                ).push(candidate@));
                candidates.push(candidate);
            },
            None => {},
        }
        i = i + 1;
    }
    assert(all.take(all.len() as int) =~= all);
    proof {
        previews_are_coherent(around, default_bind@, all);
    }
    Ok(ImportPreview { ssh_host_alias: alias.to_owned(), candidates })
}

/// What the candidates of a host are, given what the query of its settings printed.
pub open spec fn previews(
    preview: ImportPreview,
    alias: Seq<char>,
    stdout: Seq<u8>,
    existing: Seq<rule::RuleModel>,
    running: Seq<u128>,
) -> bool {
    &&& preview.ssh_host_alias@ == alias
    &&& candidate_models(preview.candidates@) == preview_of(
        Surroundings { alias, existing, running },
        vstd::utf8::decode_utf8(stdout),
    )
    &&& coherent(candidate_models(preview.candidates@))
}

impl HostCatalog {
    /// The forwardings of a host, from what the query of its effective settings printed.
    pub fn import_preview(
        &self,
        alias: &str,
        output: &ProcessOutput,
        existing_rules: &[Rule],
        running_rule_ids: &[RuleId],
    ) -> (r: Result<ImportPreview, HostError>)
        ensures
            match r {
                Ok(preview) => host::alias_refusal(alias@) is None && !output.timed_out
                    && output.success && vstd::utf8::valid_utf8(output.stdout@) && previews(
                    preview,
                    alias@,
                    output.stdout@,
                    rule::models(existing_rules@),
                    uuids(running_rule_ids@),
                ),
                Err(HostError::InvalidAlias(error)) => host::alias_refusal(alias@) == Some(error@),
                Err(HostError::QueryTimedOut) => host::alias_refusal(alias@) is None
                    && output.timed_out,
                Err(HostError::QueryFailed) => host::alias_refusal(alias@) is None
                    && !output.timed_out && !output.success,
                Err(HostError::InvalidEffectiveConfiguration) => host::alias_refusal(
                    alias@,
                ) is None && !output.timed_out && output.success && !vstd::utf8::valid_utf8(
                    output.stdout@,
                ),
                Err(_) => false,
            },
    {
        match HostAlias::new(alias) {
            Ok(_) => {},
            Err(error) => {
                return Err(HostError::InvalidAlias(error));
            },
        }
        if output.timed_out {
            return Err(HostError::QueryTimedOut);
        }
        if !output.success {
            return Err(HostError::QueryFailed);
        }
        match preview_effective_forwards(
            alias,
            output.stdout.as_slice(),
            existing_rules,
            running_rule_ids,
        ) {
            Ok(preview) => Ok(preview),
            Err(_) => Err(HostError::InvalidEffectiveConfiguration),
        }
    }
}

// ---------------------------------------------------------------------------
// Saving candidates
// ---------------------------------------------------------------------------
pub open spec fn kind_name(f: ForwardingModel) -> Seq<char> {
    match f {
        ForwardingModel::Local { .. } => "local"@,
        ForwardingModel::Remote { .. } => "remote"@,
        ForwardingModel::Dynamic { .. } => "dynamic"@,
    }
}

/// The name of an imported rule tells its type and port.
pub open spec fn base_name(f: ForwardingModel) -> Seq<char> {
    kind_name(f) + "-"@ + text::decimal(f.bind_port() as nat)
}

/// A second rule of that name is told apart by a number, and so on.
pub open spec fn numbered(base: Seq<char>, n: nat) -> Seq<char> {
    if n <= 1 {
        base
    } else {
        base + "-"@ + text::decimal(n)
    }
}

/// The first number from `n` on that gives a name not yet taken. One more number than names
/// taken is always enough.
pub open spec fn free_number(base: Seq<char>, taken: Seq<Seq<char>>, n: nat) -> nat
    decreases taken.len() + 1 - n,
{
    if n > taken.len() || !taken.contains(numbered(base, n)) {
        n
    } else {
        free_number(base, taken, n + 1)
    }
}

pub open spec fn free_name(base: Seq<char>, taken: Seq<Seq<char>>) -> Seq<char> {
    numbered(base, free_number(base, taken, 1))
}

/// A rule that is to be saved.
pub struct Draft {
    pub name: Seq<char>,
    pub forwarding: ForwardingModel,
}

pub open spec fn draft_names(drafts: Seq<Draft>) -> Seq<Seq<char>> {
    drafts.map_values(|d: Draft| d.name)
}

/// The selected candidates in their order, each with a name that no rule has yet.
pub open spec fn drafts_of(
    candidates: Seq<CandidateModel>,
    selected: Seq<usize>,
    taken: Seq<Seq<char>>,
) -> Seq<Draft>
    decreases candidates.len(),
{
    if candidates.len() == 0 {
        Seq::empty()
    } else {
        let earlier = drafts_of(candidates.drop_last(), selected, taken);
        let f = candidates.last().forwarding->0;
        if has_number(selected, candidates.len()) {
            earlier.push(
                Draft {
                    name: free_name(base_name(f), taken + draft_names(earlier)),
                    forwarding: f,
                },
            )
        } else {
            earlier
        }
    }
}

pub open spec fn has_number(selected: Seq<usize>, n: nat) -> bool {
    exists|i: int| 0 <= i < selected.len() && #[trigger] selected[i] as nat == n
}

/// The candidate with this number, counted from 1, can be saved.
pub open spec fn importable(candidates: Seq<CandidateModel>, number: usize) -> bool {
    &&& 1 <= number <= candidates.len()
    &&& candidates[number - 1].verdict is Supported
    &&& candidates[number - 1].forwarding is Some
}

pub open spec fn all_importable(candidates: Seq<CandidateModel>, selected: Seq<usize>) -> bool {
    forall|i: int| 0 <= i < selected.len() ==> importable(candidates, #[trigger] selected[i])
}

/// The rule that a draft becomes.
pub open spec fn drafted(
    draft: Draft,
    id: u128,
    alias: Seq<char>,
    auto_start: bool,
    reconnect: bool,
) -> rule::RuleModel {
    rule::RuleModel {
        id,
        name: draft.name,
        ssh_host_alias: alias,
        forwarding: draft.forwarding,
        auto_start,
        reconnect,
    }
}

/// The host and the draft make a valid rule.
pub open spec fn draft_valid(draft: Draft, alias: Seq<char>) -> bool {
    rule::valid_rule(drafted(draft, 0, alias, false, false))
}

pub open spec fn rule_names(rules: Seq<rule::RuleModel>) -> Seq<Seq<char>> {
    rules.map_values(|m: rule::RuleModel| m.name)
}

fn names_of(rules: &[Rule]) -> (out: Vec<String>)
    ensures
        text::texts(out@) == rule_names(rule::models(rules@)),
{
    let ghost all = rule_names(rule::models(rules@));
    let mut out: Vec<String> = Vec::new();
    let mut i: usize = 0;
    while i < rules.len()
        invariant
            i <= rules@.len(),
            all == rule_names(rule::models(rules@)),
            text::texts(out@) =~= all.take(i as int),
        decreases rules.len() - i,
    {
        let name = rules[i].name().to_string();
        proof {
            text::texts_push(out@, name);
            assert(all.take(i as int + 1) =~= all.take(i as int).push(all[i as int]));
        }
        out.push(name);
        i = i + 1;
    }
    assert(all.take(all.len() as int) =~= all);
    out
}

fn numbered_name(base: &str, n: u64) -> (r: String)
    ensures
        r@ == numbered(base@, n as nat),
{
    if n <= 1 {
        return base.to_owned();
    }
    let mut out = text::joined(base, "-");
    text::push_decimal(&mut out, n);
    out
}

fn unused_name(base: &str, taken: &Vec<String>) -> (r: String)
    requires
        taken@.len() < usize::MAX,
    ensures
        r@ == free_name(base@, text::texts(taken@)),
{
    let ghost all = text::texts(taken@);
    let mut n: usize = 1;
    while n <= taken.len()
        invariant
            taken@.len() < usize::MAX,
            all == text::texts(taken@),
            1 <= n <= taken@.len() + 1,
            free_number(base@, all, 1) == free_number(base@, all, n as nat),
        decreases taken.len() + 1 - n,
    {
        let name = numbered_name(base, n as u64);
        if !text::has_text(taken, name.as_str()) {
            return name;
        }
        n = n + 1;
    }
    numbered_name(base, n as u64)
}

fn has_candidate(selected: &Vec<usize>, number: usize) -> (r: bool)
    ensures
        r == has_number(selected@, number as nat),
{
    let mut i: usize = 0;
    while i < selected.len()
        invariant
            i <= selected@.len(),
            forall|k: int| 0 <= k < i ==> #[trigger] selected@[k] as nat != number,
        decreases selected.len() - i,
    {
        if selected[i] == number {
            assert(selected@[i as int] as nat == number);
            return true;
        }
        i = i + 1;
    }
    false
}

/// The first number that does not stand for a candidate that can be saved.
fn first_refused(candidates: &Vec<ImportCandidate>, selected: &Vec<usize>) -> (r: Option<usize>)
    ensures
        match r {
            Some(number) => !all_importable(candidate_models(candidates@), selected@)
                && selected@.contains(number) && !importable(
                candidate_models(candidates@),
                number,
            ),
            None => all_importable(candidate_models(candidates@), selected@),
        },
{
    let ghost all = candidate_models(candidates@);
    let mut i: usize = 0;
    while i < selected.len()
        invariant
            i <= selected@.len(),
            all == candidate_models(candidates@),
            forall|k: int| 0 <= k < i ==> importable(all, #[trigger] selected@[k]),
        decreases selected.len() - i,
    {
        let number: usize = selected[i];
        if number == 0 || number > candidates.len() {
            assert(!importable(all, selected@[i as int]));
            return Some(number);
        }
        let candidate = &candidates[number - 1];
        assert(all[number - 1] == candidates@[number - 1]@);
        let supported = match candidate.classification {
            ImportClassification::Supported => true,
            _ => false,
        };
        if !supported || candidate.forwarding.is_none() {
            assert(!importable(all, selected@[i as int]));
            return Some(number);
        }
        i = i + 1;
    }
    None
}

fn forwarding_name(forwarding: &ImportForwarding) -> (r: String)
    ensures
        r@ == base_name(forwarding@),
{
    let (kind, port) = match forwarding {
        ImportForwarding::Local { bind_port, .. } => ("local", *bind_port),
        ImportForwarding::Remote { bind_port, .. } => ("remote", *bind_port),
        ImportForwarding::Dynamic { bind_port, .. } => ("dynamic", *bind_port),
    };
    let mut out = text::joined(kind, "-");
    text::push_decimal(&mut out, port as u64);
    out
}

fn imported_rule(
    id: RuleId,
    name: &str,
    alias: &str,
    forwarding: &ImportForwarding,
    auto_start: bool,
    reconnect: bool,
) -> (r: Result<Rule, validation::ValidationError>)
    ensures
        ({
            let m = drafted(
                Draft { name: name@, forwarding: forwarding@ },
                id@,
                alias@,
                auto_start,
                reconnect,
            );
            match r {
                Ok(built) => rule::valid_rule(m) && built@ == m,
                Err(error) => rule::rule_refusal(m) == Some(error@),
            }
        }),
{
    let (built, bind_address) = match forwarding {
        ImportForwarding::Local {
            bind_address,
            bind_port,
            destination_host,
            destination_port,
        } => (
            Rule::local(
                id,
                name,
                alias,
                *bind_port,
                destination_host.as_str(),
                *destination_port,
            )?,
            bind_address,
        ),
        ImportForwarding::Remote {
            bind_address,
            bind_port,
            destination_host,
            destination_port,
        } => (
            Rule::remote(
                id,
                name,
                alias,
                *bind_port,
                destination_host.as_str(),
                *destination_port,
            )?,
            bind_address,
        ),
        ImportForwarding::Dynamic { bind_address, bind_port } => (
            Rule::dynamic(id, name, alias, *bind_port)?,
            bind_address,
        ),
    };
    let built = built.with_bind_address(bind_address.as_str())?;
    Ok(built.with_policy(auto_start, reconnect))
}

/// The rules are the drafts, each with an ID of its own and the given policy.
pub open spec fn drafted_rules(
    rules: Seq<rule::RuleModel>,
    drafts: Seq<Draft>,
    alias: Seq<char>,
    auto_start: bool,
    reconnect: bool,
) -> bool {
    &&& rules.len() == drafts.len()
    &&& forall|i: int|
        0 <= i < rules.len() ==> {
            &&& draft_valid(drafts[i], alias)
            &&& #[trigger] rules[i] == drafted(
                drafts[i],
                rules[i].id,
                alias,
                auto_start,
                reconnect,
            )
            &&& crate::identity::version_four(rules[i].id)
        }
}

/// Some draft is no valid rule, and the message says why.
pub open spec fn complains(message: Seq<char>, drafts: Seq<Draft>, alias: Seq<char>) -> bool {
    exists|i: int|
        0 <= i < drafts.len() && !draft_valid(#[trigger] drafts[i], alias) && message
            == validation::refusal_message(
            rule::rule_refusal(drafted(drafts[i], 0, alias, false, false))->0,
        )
}

/// Turns the selected candidates into rules with new IDs and unused names. Nothing is made if a
/// selected number does not stand for a candidate that can be saved, or if a rule would not be
/// valid.
pub fn selected_rules(
    preview: &ImportPreview,
    selected: &Vec<usize>,
    existing: &[Rule],
    auto_start: bool,
    reconnect: bool,
) -> (r: Result<Vec<Rule>, String>)
    requires
        existing@.len() + preview.candidates@.len() < usize::MAX,
    ensures
        ({
            let candidates = candidate_models(preview.candidates@);
            let alias = preview.ssh_host_alias@;
            let drafts = drafts_of(candidates, selected@, rule_names(rule::models(existing@)));
            match r {
                Ok(rules) => all_importable(candidates, selected@) && drafted_rules(
                    rule::models(rules@),
                    drafts,
                    alias,
                    auto_start,
                    reconnect,
                ),
                Err(message) => if all_importable(candidates, selected@) {
                    complains(message@, drafts, alias)
                } else {
                    exists|number: usize|
                        selected@.contains(number) && !importable(candidates, number) && message@
                            == #[trigger] refused_candidate(number)
                },
            }
        }),
{
    let ghost all = candidate_models(preview.candidates@);
    let ghost start = rule_names(rule::models(existing@));
    let ghost alias = preview.ssh_host_alias@;
    match first_refused(&preview.candidates, selected) {
        Some(number) => {
            let mut message = "candidate ".to_owned();
            text::push_decimal(&mut message, number as u64);
            message.append(" cannot be imported");
            assert(message@ == refused_candidate(number));
            return Err(message);
        },
        None => {},
    }
    let mut taken = names_of(existing);
    let mut rules: Vec<Rule> = Vec::new();
    let mut i: usize = 0;
    assert(all.take(0) =~= Seq::<CandidateModel>::empty());
    proof {
        assert(start + draft_names(Seq::<Draft>::empty()) =~= start);
    }
    while i < preview.candidates.len()
        invariant
            i <= preview.candidates@.len(),
            all == candidate_models(preview.candidates@),
            start == rule_names(rule::models(existing@)),
            alias == preview.ssh_host_alias@,
            all_importable(all, selected@),
            existing@.len() + preview.candidates@.len() < usize::MAX,
            taken@.len() <= existing@.len() + i,
            text::texts(taken@) == start + draft_names(
                drafts_of(all.take(i as int), selected@, start),
            ),
            rules@.len() == drafts_of(all.take(i as int), selected@, start).len(),
            forall|k: int|
                0 <= k < rules@.len() ==> {
                    let draft = drafts_of(all.take(i as int), selected@, start)[k];
                    &&& draft_valid(draft, alias)
                    &&& (#[trigger] rules@[k])@ == drafted(
                        draft,
                        rules@[k]@.id,
                        alias,
                        auto_start,
                        reconnect,
                    )
                    &&& crate::identity::version_four(rules@[k]@.id)
                },
        decreases preview.candidates.len() - i,
    {
        let ghost before = drafts_of(all.take(i as int), selected@, start);
        assert(all.take(i as int + 1).drop_last() =~= all.take(i as int));
        assert(all.take(i as int + 1).last() == all[i as int]);
        assert(all[i as int] == preview.candidates@[i as int]@);
        if has_candidate(selected, i + 1) {
            proof {
                let k = choose|k: int|
                    0 <= k < selected@.len() && #[trigger] selected@[k] as nat == i + 1;
                assert(importable(all, selected@[k]));
            }
            match &preview.candidates[i].forwarding {
                Some(forwarding) => {
                    let base = forwarding_name(forwarding);
                    let name = unused_name(base.as_str(), &taken);
                    let ghost draft = Draft { name: name@, forwarding: forwarding@ };
                    let ghost after = drafts_of(all.take(i as int + 1), selected@, start);
                    assert(after == before.push(draft));
                    let id = RuleId::new();
                    match imported_rule(
                        id,
                        name.as_str(),
                        preview.ssh_host_alias.as_str(),
                        forwarding,
                        auto_start,
                        reconnect,
                    ) {
                        Ok(built) => {
                            proof {
                                policy_is_free(draft, id@, alias, auto_start, reconnect);
                                assert(draft_names(after) =~= draft_names(before).push(name@));
                                assert(start + draft_names(after) =~= (start + draft_names(
                                    before,
                                )).push(name@));
                                text::texts_push(taken@, name);
                            }
                            rules.push(built);
                            taken.push(name);
                        },
                        Err(error) => {
                            proof {
                                policy_is_free(draft, id@, alias, auto_start, reconnect);
                                drafts_grow(all, selected@, start, i as int + 1);
                                let drafts = drafts_of(all, selected@, start);
                                assert(drafts[before.len() as int] == draft);
                                assert(!draft_valid(drafts[before.len() as int], alias));
                            }
                            return Err(error.to_string());
                        },
                    }
                },
                None => {
                    assert(false);
                },
            }
        }
        i = i + 1;
    }
    assert(all.take(all.len() as int) =~= all);
    Ok(rules)
}

pub open spec fn refused_candidate(number: usize) -> Seq<char> {
    "candidate "@ + text::decimal(number as nat) + " cannot be imported"@
}

proof fn policy_is_free(draft: Draft, id: u128, alias: Seq<char>, auto_start: bool, reconnect: bool)
    ensures
        rule::rule_refusal(drafted(draft, id, alias, auto_start, reconnect)) == rule::rule_refusal(
            drafted(draft, 0, alias, false, false),
        ),
{
}

proof fn drafts_grow(
    candidates: Seq<CandidateModel>,
    selected: Seq<usize>,
    taken: Seq<Seq<char>>,
    n: int,
)
    requires
        0 <= n <= candidates.len(),
    ensures
        drafts_of(candidates.take(n), selected, taken).len() <= drafts_of(
            candidates,
            selected,
            taken,
        ).len(),
        forall|i: int|
            0 <= i < drafts_of(candidates.take(n), selected, taken).len()
                ==> #[trigger] drafts_of(candidates, selected, taken)[i] == drafts_of(
                candidates.take(n),
                selected,
                taken,
            )[i],
    decreases candidates.len() - n,
{
    if n < candidates.len() {
        assert(candidates.take(n + 1).drop_last() =~= candidates.take(n));
        drafts_grow(candidates, selected, taken, n + 1);
        let here = drafts_of(candidates.take(n), selected, taken);
        let there = drafts_of(candidates.take(n + 1), selected, taken);
        assert forall|i: int| 0 <= i < here.len() implies #[trigger] drafts_of(
            candidates,
            selected,
            taken,
        )[i] == here[i] by {
            assert(there[i] == here[i]);
        }
    } else {
        assert(candidates.take(n) =~= candidates);
    }
}

// ---------------------------------------------------------------------------
// Laws
// ---------------------------------------------------------------------------
/// A printable ASCII character other than a space.
pub open spec fn graphic(c: char) -> bool {
    0x21 <= c as u32 <= 0x7e
}

pub open spec fn all_graphic(s: Seq<char>) -> bool {
    forall|i: int| 0 <= i < s.len() ==> graphic(#[trigger] s[i])
}

proof fn decimals_are_graphic(n: nat)
    ensures
        all_graphic(text::decimal(n)),
        text::decimal(n).len() > 0,
{
    text::decimal_reads_back(n);
    assert forall|i: int| 0 <= i < text::decimal(n).len() implies graphic(
        #[trigger] text::decimal(n)[i],
    ) by {
        assert(text::digit(text::decimal(n)[i]));
    }
}

proof fn joined_graphic(a: Seq<char>, b: Seq<char>)
    requires
        all_graphic(a),
        all_graphic(b),
    ensures
        all_graphic(a + b),
{
    assert forall|i: int| 0 <= i < (a + b).len() implies graphic(#[trigger] (a + b)[i]) by {
        if i < a.len() {
            assert((a + b)[i] == a[i]);
        } else {
            assert((a + b)[i] == b[i - a.len()]);
        }
    }
}

proof fn base_is_graphic(f: ForwardingModel)
    ensures
        all_graphic(base_name(f)),
        0 < base_name(f).len() <= 13,
{
    reveal_strlit("local");
    reveal_strlit("remote");
    reveal_strlit("dynamic");
    reveal_strlit("-");
    let digits = text::decimal(f.bind_port() as nat);
    decimals_are_graphic(f.bind_port() as nat);
    reveal_with_fuel(text::ten_to, 6);
    text::decimal_is_short(f.bind_port() as nat, 5);
    assert(all_graphic("local"@));
    assert(all_graphic("remote"@));
    assert(all_graphic("dynamic"@));
    assert(all_graphic("-"@));
    joined_graphic(kind_name(f), "-"@);
    joined_graphic(kind_name(f) + "-"@, digits);
}

proof fn name_is_valid(f: ForwardingModel, n: nat)
    requires
        n <= u64::MAX,
    ensures
        rule::name_refusal(numbered(base_name(f), n)) is None,
{
    let base = base_name(f);
    let name = numbered(base, n);
    base_is_graphic(f);
    decimals_are_graphic(n);
    reveal_with_fuel(text::ten_to, 21);
    text::decimal_is_short(n, 20);
    reveal_strlit("-");
    assert(all_graphic("-"@));
    joined_graphic(base, "-"@);
    joined_graphic(base + "-"@, text::decimal(n));
    assert(all_graphic(name));
    assert(0 < name.len() <= 128);
    assert(graphic(name[0]));
    assert(graphic(name[name.len() - 1]));
    text::trim_keeps(name);
    assert forall|i: int| 0 <= i < name.len() implies !text::control(#[trigger] name[i]) by {
        assert(graphic(name[i]));
    }
}

proof fn numbered_names_differ(base: Seq<char>, a: nat, b: nat)
    requires
        1 <= a,
        1 <= b,
        numbered(base, a) == numbered(base, b),
    ensures
        a == b,
{
    reveal_strlit("-");
    decimals_are_graphic(a);
    decimals_are_graphic(b);
    let x = numbered(base, a);
    let y = numbered(base, b);
    if a > 1 && b > 1 {
        let n = base.len() as int + 1;
        assert(x.skip(n) =~= text::decimal(a));
        assert(y.skip(n) =~= text::decimal(b));
        text::decimals_differ(a, b);
    } else if a > 1 {
        assert(x.len() > y.len());
    } else if b > 1 {
        assert(y.len() > x.len());
    }
}

/// The names with the numbers from 1 to `n`.
spec fn first_names(base: Seq<char>, n: nat) -> Seq<Seq<char>> {
    Seq::new(n, |i: int| numbered(base, (i + 1) as nat))
}

proof fn free_number_bounds(base: Seq<char>, taken: Seq<Seq<char>>, n: nat)
    requires
        1 <= n <= taken.len() + 1,
        forall|k: nat| 1 <= k < n ==> taken.contains(#[trigger] numbered(base, k)),
    ensures
        1 <= free_number(base, taken, n) <= taken.len() + 1,
        forall|k: nat|
            1 <= k < free_number(base, taken, n) ==> taken.contains(#[trigger] numbered(base, k)),
        free_number(base, taken, n) <= taken.len() ==> !taken.contains(
            numbered(base, free_number(base, taken, n)),
        ),
    decreases taken.len() + 1 - n,
{
    if n <= taken.len() && taken.contains(numbered(base, n)) {
        free_number_bounds(base, taken, n + 1);
    }
}

/// The name that is chosen is not taken: among one more name than there are taken names, one is
/// free.
pub proof fn chosen_name_is_free(base: Seq<char>, taken: Seq<Seq<char>>)
    ensures
        !taken.contains(free_name(base, taken)),
        1 <= free_number(base, taken, 1) <= taken.len() + 1,
{
    free_number_bounds(base, taken, 1);
    let n = free_number(base, taken, 1);
    if taken.contains(numbered(base, n)) {
        assert(n == taken.len() + 1);
        let names = first_names(base, n);
        assert(names.no_duplicates()) by {
            assert forall|i: int, j: int|
                0 <= i < names.len() && 0 <= j < names.len() && i != j implies names[i]
                != names[j] by {
                if names[i] == names[j] {
                    numbered_names_differ(base, (i + 1) as nat, (j + 1) as nat);
                }
            }
        }
        names.unique_seq_to_set();
        assert(names.to_set().subset_of(taken.to_set())) by {
            assert forall|x: Seq<char>| names.to_set().contains(x) implies taken.to_set().contains(
                x,
            ) by {
                let i = choose|i: int| 0 <= i < names.len() && names[i] == x;
                assert(x == numbered(base, (i + 1) as nat));
                if i + 1 < n {
                    assert(taken.contains(numbered(base, (i + 1) as nat)));
                }
            }
        }
        vstd::seq_lib::seq_to_set_is_finite(taken);
        taken.lemma_cardinality_of_set();
        vstd::set_lib::lemma_len_subset(names.to_set(), taken.to_set());
    }
}

proof fn default_binds_are_bindable(lines: Seq<Seq<char>>)
    ensures
        rule::bindable(default_bind_of(lines)),
        rule::bindable("localhost"@),
{
}

/// Every forwarding that a directive gives can stand in a rule.
pub proof fn parsed_forwardings_are_valid(
    kind: DirectiveKind,
    value: Seq<char>,
    default_bind: Seq<char>,
)
    requires
        rule::bindable(default_bind),
        forwarding_of(kind, value, default_bind) is Ok,
    ensures
        forwarding_valid(forwarding_of(kind, value, default_bind)->Ok_0),
{
}

/// Addresses, hosts and ports that a rule can have.
pub open spec fn forwarding_valid(f: ForwardingModel) -> bool {
    &&& rule::bindable(f.bind_address())
    &&& f.bind_port() != 0
    &&& f matches ForwardingModel::Local { destination_host, destination_port, .. }
        ==> rule::destination_refusal(destination_host) is None && destination_port != 0
    &&& f matches ForwardingModel::Remote { destination_host, destination_port, .. }
        ==> rule::destination_refusal(destination_host) is None && destination_port != 0
}

/// What is known of every candidate: its forwarding is valid, and if it can be saved, it conflicts
/// neither with a candidate before it that can be saved nor with a rule.
pub open spec fn fair(
    around: Surroundings,
    candidates: Seq<CandidateModel>,
    i: int,
) -> bool {
    &&& candidates[i].forwarding is Some ==> forwarding_valid(candidates[i].forwarding->0)
    &&& candidates[i].verdict is Supported ==> {
        &&& candidates[i].forwarding is Some
        &&& forall|j: int|
            0 <= j < i && (#[trigger] candidates[j]).verdict is Supported
                ==> !forwardings_conflict(
                candidates[i].forwarding->0,
                candidates[j].forwarding->0,
            )
        &&& forall|k: int|
            0 <= k < around.existing.len() ==> !conflicts_with_rule(
                around.alias,
                candidates[i].forwarding->0,
                #[trigger] around.existing[k],
            )
    }
}

proof fn no_conflict_found(existing: Seq<rule::RuleModel>, alias: Seq<char>, f: ForwardingModel)
    ensures
        0 <= first_conflict(existing, alias, f) <= existing.len(),
        first_conflict(existing, alias, f) == existing.len() ==> forall|k: int|
            0 <= k < existing.len() ==> !conflicts_with_rule(alias, f, #[trigger] existing[k]),
    decreases existing.len(),
{
    if existing.len() > 0 {
        let earlier = existing.drop_last();
        no_conflict_found(earlier, alias, f);
        if first_conflict(existing, alias, f) == existing.len() {
            assert forall|k: int| 0 <= k < existing.len() implies !conflicts_with_rule(
                alias,
                f,
                #[trigger] existing[k],
            ) by {
                if k < earlier.len() {
                    assert(earlier[k] == existing[k]);
                }
            }
        }
    }
}

proof fn candidates_are_fair(around: Surroundings, default_bind: Seq<char>, lines: Seq<Seq<char>>)
    requires
        rule::bindable(default_bind),
    ensures
        forall|i: int|
            0 <= i < candidates_of(around, default_bind, lines).len() ==> #[trigger] fair(
                around,
                candidates_of(around, default_bind, lines),
                i,
            ),
    decreases lines.len(),
{
    if lines.len() > 0 {
        let earlier = candidates_of(around, default_bind, lines.drop_last());
        let all = candidates_of(around, default_bind, lines);
        candidates_are_fair(around, default_bind, lines.drop_last());
        match directive_of(lines.last()) {
            Some((kind, value)) => {
                let parsed = forwarding_of(kind, value, default_bind);
                if parsed is Ok {
                    parsed_forwardings_are_valid(kind, value, default_bind);
                    no_conflict_found(around.existing, around.alias, parsed->Ok_0);
                }
                assert forall|i: int| 0 <= i < all.len() implies #[trigger] fair(
                    around,
                    all,
                    i,
                ) by {
                    if i < earlier.len() {
                        assert(fair(around, earlier, i));
                        assert(all[i] == earlier[i]);
                        assert forall|j: int|
                            0 <= j < i && (#[trigger] all[j]).verdict is Supported
                                && all[i].verdict is Supported implies !forwardings_conflict(
                            all[i].forwarding->0,
                            all[j].forwarding->0,
                        ) by {
                            assert(all[j] == earlier[j]);
                        }
                    } else {
                        assert forall|j: int|
                            0 <= j < i && (#[trigger] all[j]).verdict is Supported
                                && all[i].verdict is Supported implies !forwardings_conflict(
                            all[i].forwarding->0,
                            all[j].forwarding->0,
                        ) by {
                            assert(all[j] == earlier[j]);
                            assert(fair(around, earlier, j));
                        }
                    }
                }
            },
            None => {},
        }
    }
}

/// The rules that drafts become, with any IDs.
pub open spec fn drafted_all(
    drafts: Seq<Draft>,
    ids: Seq<u128>,
    alias: Seq<char>,
    auto_start: bool,
    reconnect: bool,
) -> Seq<rule::RuleModel> {
    Seq::new(
        drafts.len(),
        |i: int| drafted(drafts[i], ids[i], alias, auto_start, reconnect),
    )
}

/// The draft comes from a candidate before `n` that can be saved.
spec fn comes_from(candidates: Seq<CandidateModel>, n: int, draft: Draft) -> bool {
    exists|j: int|
        0 <= j < n && (#[trigger] candidates[j]).verdict is Supported && candidates[j].forwarding
            == Some(draft.forwarding)
}

proof fn drafts_come_from_candidates(
    candidates: Seq<CandidateModel>,
    selected: Seq<usize>,
    taken: Seq<Seq<char>>,
    n: int,
)
    requires
        0 <= n <= candidates.len(),
        all_importable(candidates, selected),
    ensures
        drafts_of(candidates.take(n), selected, taken).len() <= n,
        forall|i: int|
            0 <= i < drafts_of(candidates.take(n), selected, taken).len() ==> comes_from(
                candidates,
                n,
                #[trigger] drafts_of(candidates.take(n), selected, taken)[i],
            ),
    decreases n,
{
    if n > 0 {
        drafts_come_from_candidates(candidates, selected, taken, n - 1);
        assert(candidates.take(n).drop_last() =~= candidates.take(n - 1));
        let before = drafts_of(candidates.take(n - 1), selected, taken);
        let now = drafts_of(candidates.take(n), selected, taken);
        assert(candidates.take(n).last() == candidates[n - 1]);
        assert forall|i: int| 0 <= i < now.len() implies comes_from(
            candidates,
            n,
            #[trigger] now[i],
        ) by {
            if i < before.len() {
                assert(now[i] == before[i]);
                assert(comes_from(candidates, n - 1, before[i]));
            } else {
                let k = choose|k: int| 0 <= k < selected.len() && #[trigger] selected[k] as nat == n;
                assert(importable(candidates, selected[k]));
                assert(candidates[n - 1].forwarding == Some(now[i].forwarding));
            }
        }
    }
}

/// Saving any selection of the candidates that can be saved is safe: the rules that they become
/// are all valid, and together with the existing rules they form a valid set. So an import of
/// them is never refused.
pub proof fn imports_are_valid(
    around: Surroundings,
    output: Seq<char>,
    selected: Seq<usize>,
    ids: Seq<u128>,
    auto_start: bool,
    reconnect: bool,
)
    requires
        host::alias_refusal(around.alias) is None,
        validation::rule_set_valid(around.existing),
        around.existing.len() + preview_of(around, output).len() < u64::MAX,
        all_importable(preview_of(around, output), selected),
    ensures
        ({
            let drafts = drafts_of(
                preview_of(around, output),
                selected,
                rule_names(around.existing),
            );
            &&& forall|i: int| 0 <= i < drafts.len() ==> draft_valid(#[trigger] drafts[i], around.alias)
            &&& validation::rule_set_valid(
                around.existing + drafted_all(drafts, ids, around.alias, auto_start, reconnect),
            )
        }),
{
    let lines = text::lines(output);
    let bind = default_bind_of(lines);
    let all = preview_of(around, output);
    default_binds_are_bindable(lines);
    candidates_are_fair(around, bind, lines);
    assert(all.take(all.len() as int) =~= all);
    imports_step(around, all, selected, ids, auto_start, reconnect, all.len() as int);
}

proof fn imports_step(
    around: Surroundings,
    all: Seq<CandidateModel>,
    selected: Seq<usize>,
    ids: Seq<u128>,
    auto_start: bool,
    reconnect: bool,
    n: int,
)
    requires
        host::alias_refusal(around.alias) is None,
        validation::rule_set_valid(around.existing),
        around.existing.len() + all.len() < u64::MAX,
        all_importable(all, selected),
        forall|i: int| 0 <= i < all.len() ==> #[trigger] fair(around, all, i),
        0 <= n <= all.len(),
    ensures
        ({
            let drafts = drafts_of(all.take(n), selected, rule_names(around.existing));
            &&& forall|i: int| 0 <= i < drafts.len() ==> draft_valid(#[trigger] drafts[i], around.alias)
            &&& validation::rule_set_valid(
                around.existing + drafted_all(drafts, ids, around.alias, auto_start, reconnect),
            )
        }),
    decreases n,
{
    let taken = rule_names(around.existing);
    let now = drafts_of(all.take(n), selected, taken);
    let rules = around.existing + drafted_all(now, ids, around.alias, auto_start, reconnect);
    if n == 0 {
        assert(rules =~= around.existing);
    } else {
        imports_step(around, all, selected, ids, auto_start, reconnect, n - 1);
        assert(all.take(n).drop_last() =~= all.take(n - 1));
        let before = drafts_of(all.take(n - 1), selected, taken);
        let old_rules = around.existing + drafted_all(
            before,
            ids,
            around.alias,
            auto_start,
            reconnect,
        );
        if has_number(selected, all.take(n).len()) {
            let k = choose|k: int| 0 <= k < selected.len() && #[trigger] selected[k] as nat == n;
            assert(importable(all, selected[k]));
            assert(fair(around, all, n - 1));
            let f = all[n - 1].forwarding->0;
            let names = taken + draft_names(before);
            let draft = Draft { name: free_name(base_name(f), names), forwarding: f };
            assert(now == before.push(draft));
            drafts_come_from_candidates(all, selected, taken, n - 1);
            chosen_name_is_free(base_name(f), names);
            name_is_valid(f, free_number(base_name(f), names, 1));
            assert(draft_valid(draft, around.alias));
            let m = drafted(draft, ids[before.len() as int], around.alias, auto_start, reconnect);
            assert(rules =~= old_rules.push(m));
            assert(!validation::name_taken(old_rules, m)) by {
                if validation::name_taken(old_rules, m) {
                    let i = choose|i: int|
                        0 <= i < old_rules.len() && (#[trigger] old_rules[i]).name == m.name;
                    if i < around.existing.len() {
                        assert(names[i] == taken[i]);
                        assert(names[i] == m.name);
                    } else {
                        let j = i - around.existing.len();
                        assert(names[i] == draft_names(before)[j]);
                        assert(names[i] == m.name);
                    }
                    assert(names.contains(m.name));
                }
            }
            assert(!validation::listener_taken(old_rules, m)) by {
                if validation::listener_taken(old_rules, m) {
                    let i = choose|i: int|
                        0 <= i < old_rules.len() && validation::clash(m, #[trigger] old_rules[i]);
                    if i < around.existing.len() {
                        assert(old_rules[i] == around.existing[i]);
                        assert(!conflicts_with_rule(around.alias, f, around.existing[i]));
                    } else {
                        let other = before[i - around.existing.len()];
                        assert(comes_from(all, n - 1, other));
                        let j = choose|j: int|
                            0 <= j < n - 1 && (#[trigger] all[j]).verdict is Supported
                                && all[j].forwarding == Some(other.forwarding);
                        assert(fair(around, all, j));
                        assert(!forwardings_conflict(f, all[j].forwarding->0));
                    }
                }
            }
            validation::addition_keeps_validity(old_rules, m);
        }
    }
}

// ---------------------------------------------------------------------------
// What is read is what was written
// ---------------------------------------------------------------------------
/// An endpoint as `ssh -G` prints it: the host in brackets, then the port.
pub open spec fn written(host: Seq<char>, port: u16) -> Seq<char> {
    "["@ + host + "]:"@ + text::decimal(port as nat)
}

/// An endpoint with the host in brackets and anything in the place of the port.
pub open spec fn in_brackets(host: Seq<char>, port: Seq<char>) -> Seq<char> {
    "["@ + host + "]:"@ + port
}

/// A host that can be told from what surrounds it: not empty, without white space, without a
/// closing bracket and without the slash that marks a socket.
pub open spec fn tellable(host: Seq<char>) -> bool {
    &&& host.len() > 0
    &&& !host.contains(']')
    &&& !host.contains('/')
    &&& forall|i: int| 0 <= i < host.len() ==> !text::white_space(#[trigger] host[i])
}

proof fn address_chars_are_tellable(c: char)
    requires
        crate::address::address_char(c),
    ensures
        c != ']',
        c != '/',
        !text::white_space(c),
{
}

/// Every address that can be bound to can be told from what surrounds it.
pub proof fn bind_addresses_are_tellable(s: Seq<char>)
    requires
        rule::bindable(s),
    ensures
        tellable(s),
{
    reveal_strlit("localhost");
    reveal_strlit("*");
    if s == "localhost"@ {
        assert(!s.contains(']') && !s.contains('/'));
    } else if s == "*"@ {
        assert(!s.contains(']') && !s.contains('/'));
    } else {
        crate::address::addresses_are_plain(s);
        assert forall|i: int| 0 <= i < s.len() implies s[i] != ']' && s[i] != '/'
            && !text::white_space(#[trigger] s[i]) by {
            address_chars_are_tellable(s[i]);
        }
    }
}

proof fn destinations_are_tellable(host: Seq<char>)
    requires
        rule::destination_refusal(host) is None,
        !host.contains(']'),
        !host.contains('/'),
    ensures
        tellable(host),
{
    assert(!validation::some_space(host));
}

proof fn brackets_split(host: Seq<char>, port: Seq<char>)
    requires
        !host.contains(']'),
    ensures
        endpoint_parts(in_brackets(host, port)) == Some((host, port)),
        in_brackets(host, port).len() == host.len() + port.len() + 3,
        in_brackets(host, port)[0] == '[',
{
    reveal_strlit("[");
    reveal_strlit("]:");
    let s = in_brackets(host, port);
    let rest = s.drop_first();
    let end = text::first_of(rest, ']');
    text::first_of_position(rest, ']');
    assert(rest[host.len() as int] == ']');
    assert(rest.len() == host.len() + 2 + port.len());
    if end < host.len() {
        assert(rest[end] == host[end]);
    }
    assert(end == host.len());
    assert(rest[end + 1] == ':');
    assert(rest.take(end) =~= host);
    assert(rest.skip(end + 2) =~= port);
}

/// An endpoint in brackets is read back, with its own host and its own port.
pub proof fn endpoints_read_back(host: Seq<char>, port: u16)
    requires
        tellable(host),
        port != 0,
    ensures
        endpoint_of(written(host, port)) == Ok::<(Seq<char>, u16), ParseFailure>((host, port)),
{
    brackets_split(host, text::decimal(port as nat));
    text::u16_reads_back(port);
}

/// So is one without brackets: its port follows the last colon.
pub proof fn bare_endpoints_read_back(host: Seq<char>, port: u16)
    requires
        host.len() > 0,
        host[0] != '[',
        port != 0,
    ensures
        endpoint_of(host.push(':') + text::decimal(port as nat)) == Ok::<
            (Seq<char>, u16),
            ParseFailure,
        >((host, port)),
{
    let digits = text::decimal(port as nat);
    let s = host.push(':') + digits;
    text::decimal_reads_back(port as nat);
    text::u16_reads_back(port);
    text::last_of_position(s, ':');
    let colon = text::last_of(s, ':');
    assert(s[host.len() as int] == ':');
    if colon > host.len() {
        assert(s[colon] == digits[colon - host.len() - 1]);
        assert(text::digit(digits[colon - host.len() - 1]));
    }
    assert(colon == host.len());
    assert(s.take(colon) =~= host);
    assert(s.skip(colon + 1) =~= digits);
}

/// An endpoint needs a host and a port from 1 to 65535.
pub proof fn endpoints_without_a_port_are_refused(host: Seq<char>, port: Seq<char>)
    requires
        tellable(host),
        text::parsed_u16(port) is None || text::parsed_u16(port) == Some(0u16),
    ensures
        endpoint_of(in_brackets(host, port)) == Err::<(Seq<char>, u16), ParseFailure>(
            ParseFailure::Invalid(InvalidReason::Port),
        ),
        endpoint_of(in_brackets(Seq::empty(), port)) == Err::<(Seq<char>, u16), ParseFailure>(
            ParseFailure::Invalid(InvalidReason::Syntax),
        ),
{
    brackets_split(host, port);
    brackets_split(Seq::empty(), port);
}

proof fn listeners_read_back(address: Seq<char>, port: u16, default_bind: Seq<char>)
    requires
        rule::bindable(address),
        port != 0,
    ensures
        listener_of(written(address, port), default_bind) == Ok::<(Seq<char>, u16), ParseFailure>(
            (address, port),
        ),
{
    bind_addresses_are_tellable(address);
    endpoints_read_back(address, port);
    brackets_split(address, text::decimal(port as nat));
    let s = written(address, port);
    assert(!text::digit(s[0]));
}

proof fn written_is_a_word(host: Seq<char>, port: u16)
    requires
        tellable(host),
    ensures
        written(host, port).len() > 0,
        !written(host, port).contains('/'),
        forall|i: int|
            0 <= i < written(host, port).len() ==> !text::white_space(
                #[trigger] written(host, port)[i],
            ),
{
    reveal_strlit("[");
    reveal_strlit("]:");
    let digits = text::decimal(port as nat);
    let s = written(host, port);
    text::decimal_reads_back(port as nat);
    assert forall|i: int| 0 <= i < s.len() implies !text::white_space(#[trigger] s[i]) && s[i]
        != '/' by {
        if i == 0 {
        } else if i <= host.len() {
            assert(s[i] == host[i - 1]);
        } else if i < host.len() + 3 {
            assert(s[i] == "]:"@[i - host.len() - 1]);
        } else {
            assert(s[i] == digits[i - host.len() - 3]);
            assert(text::digit(digits[i - host.len() - 3]));
        }
    }
}

proof fn digits_are_a_word(port: u16)
    ensures
        text::decimal(port as nat).len() > 0,
        !text::decimal(port as nat).contains('/'),
        forall|i: int|
            0 <= i < text::decimal(port as nat).len() ==> !text::white_space(
                #[trigger] text::decimal(port as nat)[i],
            ),
{
    let digits = text::decimal(port as nat);
    text::decimal_reads_back(port as nat);
    assert forall|i: int| 0 <= i < digits.len() implies !text::white_space(#[trigger] digits[i])
        && digits[i] != '/' by {
        assert(text::digit(digits[i]));
    }
}

proof fn two_fields(a: Seq<char>, b: Seq<char>)
    requires
        a.len() > 0,
        b.len() > 0,
        !a.contains('/'),
        !b.contains('/'),
        forall|i: int| 0 <= i < a.len() ==> !text::white_space(#[trigger] a[i]),
        forall|i: int| 0 <= i < b.len() ==> !text::white_space(#[trigger] b[i]),
    ensures
        text::words(a.push(' ') + b) == seq![a, b],
        text::words(a) == seq![a],
        !has_socket(seq![a, b]),
        !has_socket(seq![a]),
{
    text::words_are_told_apart(Seq::empty(), ' ', a);
    text::words_are_told_apart(a, ' ', b);
    assert(seq![a].push(b) =~= seq![a, b]);
}

/// The destination of a forwarding, if it has one.
pub open spec fn destination(f: ForwardingModel) -> Option<(Seq<char>, u16)> {
    match f {
        ForwardingModel::Local { destination_host, destination_port, .. } => Some(
            (destination_host, destination_port),
        ),
        ForwardingModel::Remote { destination_host, destination_port, .. } => Some(
            (destination_host, destination_port),
        ),
        ForwardingModel::Dynamic { .. } => None,
    }
}

proof fn fields_make_a_forwarding(
    value: Seq<char>,
    default_bind: Seq<char>,
    first: Seq<char>,
    second: Seq<char>,
    listener: (Seq<char>, u16),
    target: (Seq<char>, u16),
)
    requires
        text::words(value) == seq![first, second],
        !has_socket(seq![first, second]),
        destination_of(second) == Ok::<(Seq<char>, u16), ParseFailure>(target),
    ensures
        listener_of(first, default_bind) == Ok::<(Seq<char>, u16), ParseFailure>(listener)
            ==> forwarding_of(DirectiveKind::Local, value, default_bind) == Ok::<
            ForwardingModel,
            ParseFailure,
        >(
            ForwardingModel::Local {
                bind_address: listener.0,
                bind_port: listener.1,
                destination_host: target.0,
                destination_port: target.1,
            },
        ),
        listener_of(first, "localhost"@) == Ok::<(Seq<char>, u16), ParseFailure>(listener)
            ==> forwarding_of(DirectiveKind::Remote, value, default_bind) == Ok::<
            ForwardingModel,
            ParseFailure,
        >(
            ForwardingModel::Remote {
                bind_address: listener.0,
                bind_port: listener.1,
                destination_host: target.0,
                destination_port: target.1,
            },
        ),
{
    assert(seq![first, second][0] == first && seq![first, second][1] == second);
}

proof fn pairs_read_back(
    address: Seq<char>,
    port: u16,
    host: Seq<char>,
    to: u16,
    default_bind: Seq<char>,
)
    requires
        rule::bindable(address),
        port != 0,
        rule::destination_refusal(host) is None,
        tellable(host),
        to != 0,
    ensures
        forwarding_of(
            DirectiveKind::Local,
            written(address, port).push(' ') + written(host, to),
            default_bind,
        ) == Ok::<ForwardingModel, ParseFailure>(
            ForwardingModel::Local {
                bind_address: address,
                bind_port: port,
                destination_host: host,
                destination_port: to,
            },
        ),
        forwarding_of(
            DirectiveKind::Remote,
            written(address, port).push(' ') + written(host, to),
            default_bind,
        ) == Ok::<ForwardingModel, ParseFailure>(
            ForwardingModel::Remote {
                bind_address: address,
                bind_port: port,
                destination_host: host,
                destination_port: to,
            },
        ),
{
    let first = written(address, port);
    let second = written(host, to);
    let value = first.push(' ') + second;
    assert(destination_of(second) == Ok::<(Seq<char>, u16), ParseFailure>((host, to))) by {
        endpoints_read_back(host, to);
    }
    assert(text::words(value) == seq![first, second] && !has_socket(seq![first, second])) by {
        bind_addresses_are_tellable(address);
        written_is_a_word(address, port);
        written_is_a_word(host, to);
        two_fields(first, second);
    }
    listeners_read_back(address, port, default_bind);
    listeners_read_back(address, port, "localhost"@);
    fields_make_a_forwarding(value, default_bind, first, second, (address, port), (host, to));
}

proof fn lone_listeners_read_back(address: Seq<char>, port: u16, default_bind: Seq<char>)
    requires
        rule::bindable(address),
        port != 0,
    ensures
        forwarding_of(DirectiveKind::Dynamic, written(address, port), default_bind) == Ok::<
            ForwardingModel,
            ParseFailure,
        >(ForwardingModel::Dynamic { bind_address: address, bind_port: port }),
{
    let first = written(address, port);
    assert(text::words(first) == seq![first] && !has_socket(seq![first])) by {
        bind_addresses_are_tellable(address);
        written_is_a_word(address, port);
        two_fields(first, first);
    }
    listeners_read_back(address, port, default_bind);
    assert(seq![first][0] == first);
}

/// A directive that names the listener of a valid forwarding first and its destination second is
/// read back as exactly this forwarding. A dynamic forwarding has the listener alone. Only a host
/// with a closing bracket cannot stand in brackets, and one with a slash is taken for a socket.
pub proof fn directives_read_back(f: ForwardingModel, default_bind: Seq<char>)
    requires
        forwarding_valid(f),
        destination(f) matches Some((host, port)) ==> !host.contains(']') && !host.contains('/'),
    ensures
        ({
            let listener = written(f.bind_address(), f.bind_port());
            &&& f matches ForwardingModel::Local { destination_host, destination_port, .. }
                ==> forwarding_of(
                DirectiveKind::Local,
                listener.push(' ') + written(destination_host, destination_port),
                default_bind,
            ) == Ok::<ForwardingModel, ParseFailure>(f)
            &&& f matches ForwardingModel::Remote { destination_host, destination_port, .. }
                ==> forwarding_of(
                DirectiveKind::Remote,
                listener.push(' ') + written(destination_host, destination_port),
                default_bind,
            ) == Ok::<ForwardingModel, ParseFailure>(f)
            &&& f is Dynamic ==> forwarding_of(DirectiveKind::Dynamic, listener, default_bind)
                == Ok::<ForwardingModel, ParseFailure>(f)
        }),
{
    match f {
        ForwardingModel::Local { bind_address, bind_port, destination_host, destination_port } => {
            destinations_are_tellable(destination_host);
            pairs_read_back(
                bind_address,
                bind_port,
                destination_host,
                destination_port,
                default_bind,
            );
        },
        ForwardingModel::Remote { bind_address, bind_port, destination_host, destination_port } => {
            destinations_are_tellable(destination_host);
            pairs_read_back(
                bind_address,
                bind_port,
                destination_host,
                destination_port,
                default_bind,
            );
        },
        ForwardingModel::Dynamic { bind_address, bind_port } => {
            lone_listeners_read_back(bind_address, bind_port, default_bind);
        },
    }
}

proof fn bare_listeners_read_back(port: u16, default_bind: Seq<char>)
    requires
        port != 0,
    ensures
        listener_of(text::decimal(port as nat), default_bind) == Ok::<
            (Seq<char>, u16),
            ParseFailure,
        >((default_bind, port)),
{
    text::decimal_reads_back(port as nat);
    text::u16_reads_back(port);
}

proof fn bare_fields(port: u16, host: Seq<char>, to: u16)
    requires
        tellable(host),
    ensures
        ({
            let digits = text::decimal(port as nat);
            let target = written(host, to);
            &&& text::words(digits.push(' ') + target) == seq![digits, target]
            &&& !has_socket(seq![digits, target])
            &&& text::words(digits) == seq![digits]
            &&& !has_socket(seq![digits])
        }),
{
    digits_are_a_word(port);
    written_is_a_word(host, to);
    two_fields(text::decimal(port as nat), written(host, to));
}

proof fn lone_field_makes_a_forwarding(
    value: Seq<char>,
    default_bind: Seq<char>,
    listener: (Seq<char>, u16),
)
    requires
        text::words(value) == seq![value],
        !has_socket(seq![value]),
        listener_of(value, default_bind) == Ok::<(Seq<char>, u16), ParseFailure>(listener),
    ensures
        forwarding_of(DirectiveKind::Dynamic, value, default_bind) == Ok::<
            ForwardingModel,
            ParseFailure,
        >(ForwardingModel::Dynamic { bind_address: listener.0, bind_port: listener.1 }),
{
    assert(seq![value][0] == value);
}

/// A port alone listens where nothing else is said: at the default address on this side, and at
/// `localhost` on the other side.
pub proof fn bare_ports_listen_at_the_default(
    port: u16,
    host: Seq<char>,
    to: u16,
    default_bind: Seq<char>,
)
    requires
        port != 0,
        to != 0,
        !host.contains(']'),
        !host.contains('/'),
        rule::destination_refusal(host) is None,
    ensures
        ({
            let value = text::decimal(port as nat).push(' ') + written(host, to);
            &&& forwarding_of(DirectiveKind::Local, value, default_bind) == Ok::<
                ForwardingModel,
                ParseFailure,
            >(
                ForwardingModel::Local {
                    bind_address: default_bind,
                    bind_port: port,
                    destination_host: host,
                    destination_port: to,
                },
            )
            &&& forwarding_of(DirectiveKind::Remote, value, default_bind) == Ok::<
                ForwardingModel,
                ParseFailure,
            >(
                ForwardingModel::Remote {
                    bind_address: "localhost"@,
                    bind_port: port,
                    destination_host: host,
                    destination_port: to,
                },
            )
            &&& forwarding_of(DirectiveKind::Dynamic, text::decimal(port as nat), default_bind)
                == Ok::<ForwardingModel, ParseFailure>(
                ForwardingModel::Dynamic { bind_address: default_bind, bind_port: port },
            )
        }),
{
    let digits = text::decimal(port as nat);
    let target = written(host, to);
    let value = digits.push(' ') + target;
    destinations_are_tellable(host);
    endpoints_read_back(host, to);
    assert(destination_of(target) == Ok::<(Seq<char>, u16), ParseFailure>((host, to)));
    bare_listeners_read_back(port, default_bind);
    bare_listeners_read_back(port, "localhost"@);
    bare_fields(port, host, to);
    fields_make_a_forwarding(value, default_bind, digits, target, (default_bind, port), (host, to));
    fields_make_a_forwarding(value, default_bind, digits, target, ("localhost"@, port), (host, to));
    lone_field_makes_a_forwarding(digits, default_bind, (default_bind, port));
}

/// What is wrong with an endpoint is told: an address that cannot be bound to, or a host to which
/// nothing can lead.
pub proof fn bad_hosts_are_told_apart(host: Seq<char>, port: u16, default_bind: Seq<char>)
    requires
        tellable(host),
        port != 0,
    ensures
        !rule::bindable(host) ==> listener_of(written(host, port), default_bind) == Err::<
            (Seq<char>, u16),
            ParseFailure,
        >(ParseFailure::Invalid(InvalidReason::BindAddress)),
        rule::destination_refusal(host) is Some ==> destination_of(written(host, port)) == Err::<
            (Seq<char>, u16),
            ParseFailure,
        >(ParseFailure::Invalid(InvalidReason::DestinationHost)),
{
    endpoints_read_back(host, port);
    brackets_split(host, text::decimal(port as nat));
    let s = written(host, port);
    assert(!text::digit(s[0]));
}

/// A directive gives a forwarding of its own type or none. A local and a remote one need two
/// fields and a dynamic one needs one. A field with a slash is a socket, whatever else is wrong, and
/// a remote directive without a destination asks for a proxy at the other end.
pub proof fn directives_keep_their_type(
    kind: DirectiveKind,
    value: Seq<char>,
    default_bind: Seq<char>,
)
    ensures
        ({
            let fields = text::words(value);
            let r = forwarding_of(kind, value, default_bind);
            let socket = exists|i: int|
                0 <= i < fields.len() && (#[trigger] fields[i]).contains('/');
            &&& r matches Ok(f) ==> {
                &&& kind == DirectiveKind::Local <==> f is Local
                &&& kind == DirectiveKind::Remote <==> f is Remote
                &&& kind == DirectiveKind::Dynamic <==> f is Dynamic
                &&& fields.len() == if f is Dynamic {
                    1nat
                } else {
                    2nat
                }
            }
            &&& socket <==> r == Err::<ForwardingModel, ParseFailure>(
                ParseFailure::Unsupported(UnsupportedReason::UnixSocket),
            )
            &&& r == Err::<ForwardingModel, ParseFailure>(
                ParseFailure::Unsupported(UnsupportedReason::RemoteDynamic),
            ) <==> !socket && kind == DirectiveKind::Remote && fields.len() == 1 && listener_of(
                fields[0],
                "localhost"@,
            ) is Ok
            &&& !socket && fields.len() != 1 && fields.len() != 2 ==> r == Err::<
                ForwardingModel,
                ParseFailure,
            >(ParseFailure::Invalid(InvalidReason::Syntax))
            &&& !socket && kind == DirectiveKind::Local && fields.len() == 1 ==> r == Err::<
                ForwardingModel,
                ParseFailure,
            >(ParseFailure::Invalid(InvalidReason::Syntax))
            &&& !socket && kind == DirectiveKind::Dynamic && fields.len() == 2 ==> r == Err::<
                ForwardingModel,
                ParseFailure,
            >(ParseFailure::Invalid(InvalidReason::Syntax))
        }),
{
}

/// A keyword in any case, white space and a value make a setting.
pub proof fn settings_read_back(keyword: Seq<char>, space: char, value: Seq<char>)
    requires
        forall|i: int| 0 <= i < keyword.len() ==> !text::white_space(#[trigger] keyword[i]),
        text::white_space(space),
    ensures
        setting_of(keyword.push(space) + value) == Some(
            (text::lowered(keyword), text::trim(value)),
        ),
        setting_of(keyword) is None,
{
    let line = keyword.push(space) + value;
    text::first_space_position(line);
    text::first_space_position(keyword);
    let k = text::first_space(line);
    assert(line[keyword.len() as int] == space);
    if k < keyword.len() {
        assert(line[k] == keyword[k]);
    }
    assert(k == keyword.len());
    assert(line.take(k) =~= keyword);
    assert(line.skip(k + 1) =~= value);
}

/// Three keywords are directives, each of its own type.
pub proof fn directive_keywords(keyword: Seq<char>)
    ensures
        kind_of("localforward"@) == Some(DirectiveKind::Local),
        kind_of("remoteforward"@) == Some(DirectiveKind::Remote),
        kind_of("dynamicforward"@) == Some(DirectiveKind::Dynamic),
        keyword != "localforward"@ && keyword != "remoteforward"@ && keyword != "dynamicforward"@
            ==> kind_of(keyword) is None,
{
    reveal_strlit("localforward");
    reveal_strlit("remoteforward");
    reveal_strlit("dynamicforward");
    assert("localforward"@.len() == 12 && "remoteforward"@.len() == 13 && "dynamicforward"@.len()
        == 14);
}

/// Only a `GatewayPorts` that is `yes` opens the listeners of this side to every interface.
pub proof fn gateway_ports_open_every_interface(lines: Seq<Seq<char>>, i: int)
    ensures
        0 <= i < lines.len() && setting_of(lines[i]) == Some(("gatewayports"@, "yes"@))
            ==> default_bind_of(lines) == "*"@,
        default_bind_of(lines) == "*"@ ==> exists|k: int|
            0 <= k < lines.len() && setting_of(#[trigger] lines[k]) == Some(
                ("gatewayports"@, "yes"@),
            ),
        default_bind_of(lines) == "*"@ || default_bind_of(lines) == "localhost"@,
{
    reveal_strlit("*");
    reveal_strlit("localhost");
    assert("*"@.len() == 1 && "localhost"@.len() == 9);
    if 0 <= i < lines.len() && setting_of(lines[i]) == Some(("gatewayports"@, "yes"@)) {
        assert(opens_gateway(lines[i]));
    }
    if default_bind_of(lines) == "*"@ {
        let k = choose|k: int| 0 <= k < lines.len() && opens_gateway(#[trigger] lines[k]);
        assert(setting_of(lines[k]) == Some(("gatewayports"@, "yes"@)));
    }
}

/// Two forwardings conflict if they listen on one side, on one port and on overlapping addresses,
/// and only then.
pub proof fn conflicts_are_between_listeners(
    a: ForwardingModel,
    b: ForwardingModel,
    alias: Seq<char>,
    m: rule::RuleModel,
)
    requires
        forwarding_valid(a),
        forwarding_valid(b),
    ensures
        ({
            let meet = a.bind_port() == b.bind_port() && validation::overlap(
                validation::binding(a.bind_address()),
                validation::binding(b.bind_address()),
            );
            &&& forwardings_conflict(a, a)
            &&& forwardings_conflict(a, b) <==> forwardings_conflict(b, a)
            &&& a is Remote && !(b is Remote) ==> !forwardings_conflict(a, b)
            &&& a is Remote && b is Remote ==> (forwardings_conflict(a, b) <==> meet)
            &&& !(a is Remote) && !(b is Remote) ==> (forwardings_conflict(a, b) <==> meet)
        }),
        m.forwarding == b ==> {
            &&& conflicts_with_rule(alias, a, m) ==> forwardings_conflict(a, b)
            &&& !(a is Remote) ==> (conflicts_with_rule(alias, a, m) <==> forwardings_conflict(a, b))
            &&& a is Remote && m.ssh_host_alias == alias ==> (conflicts_with_rule(alias, a, m)
                <==> forwardings_conflict(a, b))
            &&& a is Remote && m.ssh_host_alias != alias ==> !conflicts_with_rule(alias, a, m)
        },
{
    validation::overlap_is_reflexive(validation::binding(a.bind_address()));
    validation::overlap_is_symmetric(
        validation::binding(a.bind_address()),
        validation::binding(b.bind_address()),
    );
}

proof fn first_with_is_first(earlier: Seq<CandidateModel>, f: ForwardingModel)
    ensures
        forall|i: int|
            0 <= i < first_with(earlier, f) && i < earlier.len() ==> (#[trigger] earlier[i]).forwarding
                != Some(f),
    decreases earlier.len(),
{
    if earlier.len() > 0 {
        first_with_is_first(earlier.drop_last(), f);
        first_with_is_a_match(earlier.drop_last(), f);
        assert forall|i: int| 0 <= i < first_with(earlier, f) && i < earlier.len() implies (
        #[trigger] earlier[i]).forwarding != Some(f) by {
            if i < earlier.len() - 1 {
                assert(earlier.drop_last()[i] == earlier[i]);
            }
        }
    }
}

proof fn first_same_rule_is_first(
    existing: Seq<rule::RuleModel>,
    alias: Seq<char>,
    f: ForwardingModel,
)
    ensures
        0 <= first_same_rule(existing, alias, f) <= existing.len(),
        first_same_rule(existing, alias, f) < existing.len() ==> ({
            let m = existing[first_same_rule(existing, alias, f)];
            m.ssh_host_alias == alias && m.forwarding == f
        }),
        forall|i: int|
            0 <= i < first_same_rule(existing, alias, f) && i < existing.len() ==> !((
            #[trigger] existing[i]).ssh_host_alias == alias && existing[i].forwarding == f),
    decreases existing.len(),
{
    if existing.len() > 0 {
        first_same_rule_is_first(existing.drop_last(), alias, f);
        assert forall|i: int|
            0 <= i < first_same_rule(existing, alias, f) && i < existing.len() implies !((
        #[trigger] existing[i]).ssh_host_alias == alias && existing[i].forwarding == f) by {
            if i < existing.len() - 1 {
                assert(existing.drop_last()[i] == existing[i]);
            }
        }
    }
}

proof fn first_conflict_is_first(
    existing: Seq<rule::RuleModel>,
    alias: Seq<char>,
    f: ForwardingModel,
)
    ensures
        0 <= first_conflict(existing, alias, f) <= existing.len(),
        first_conflict(existing, alias, f) < existing.len() ==> conflicts_with_rule(
            alias,
            f,
            existing[first_conflict(existing, alias, f)],
        ),
        forall|i: int|
            0 <= i < first_conflict(existing, alias, f) && i < existing.len()
                ==> !conflicts_with_rule(alias, f, #[trigger] existing[i]),
    decreases existing.len(),
{
    if existing.len() > 0 {
        first_conflict_is_first(existing.drop_last(), alias, f);
        assert forall|i: int|
            0 <= i < first_conflict(existing, alias, f) && i < existing.len() implies !conflicts_with_rule(
            alias,
            f,
            #[trigger] existing[i],
        ) by {
            if i < existing.len() - 1 {
                assert(existing.drop_last()[i] == existing[i]);
            }
        }
    }
}

/// A forwarding that was seen before repeats the first candidate that has it. Otherwise one that the
/// host already has repeats the first such rule. Otherwise it conflicts with a candidate before it
/// that can be saved, or else with the first rule that is in its way. Only a forwarding of which
/// nothing of this holds can be saved. A rule is told to be running exactly if it is.
pub proof fn verdicts_name_what_is_in_the_way(
    around: Surroundings,
    earlier: Seq<CandidateModel>,
    f: ForwardingModel,
)
    ensures
        ({
            let verdict = verdict_on(around, earlier, f);
            let seen = exists|i: int|
                0 <= i < earlier.len() && (#[trigger] earlier[i]).forwarding == Some(f);
            let stored = exists|i: int|
                0 <= i < around.existing.len() && (#[trigger] around.existing[i]).ssh_host_alias
                    == around.alias && around.existing[i].forwarding == f;
            let accepted = exists|i: int|
                0 <= i < earlier.len() && (#[trigger] earlier[i]).verdict is Supported
                    && earlier[i].forwarding is Some && forwardings_conflict(
                    f,
                    earlier[i].forwarding->0,
                );
            let blocked = exists|i: int|
                0 <= i < around.existing.len() && conflicts_with_rule(
                    around.alias,
                    f,
                    #[trigger] around.existing[i],
                );
            &&& verdict is DuplicateDirective <==> seen
            &&& verdict is DuplicateRule <==> !seen && stored
            &&& verdict is Conflict <==> !seen && !stored && (accepted || blocked)
            &&& verdict is Supported <==> !seen && !stored && !accepted && !blocked
            &&& verdict matches Verdict::DuplicateDirective { first_index } ==> {
                &&& 0 <= first_index < earlier.len()
                &&& earlier[first_index].forwarding == Some(f)
                &&& forall|i: int|
                    0 <= i < first_index ==> (#[trigger] earlier[i]).forwarding != Some(f)
            }
            &&& verdict matches Verdict::DuplicateRule { rule_id, running } ==> {
                &&& running == around.running.contains(rule_id)
                &&& exists|k: int|
                    0 <= k < around.existing.len() && (#[trigger] around.existing[k]).id == rule_id
                        && around.existing[k].ssh_host_alias == around.alias
                        && around.existing[k].forwarding == f
            }
            &&& verdict matches Verdict::Conflict { rule_id, running } ==> {
                &&& rule_id is None <==> accepted
                &&& rule_id is None ==> !running
                &&& rule_id matches Some(id) ==> {
                    &&& running == around.running.contains(id)
                    &&& exists|k: int|
                        0 <= k < around.existing.len() && (#[trigger] around.existing[k]).id == id
                            && conflicts_with_rule(around.alias, f, around.existing[k])
                }
            }
        }),
{
    first_with_is_a_match(earlier, f);
    first_with_is_first(earlier, f);
    first_same_rule_is_first(around.existing, around.alias, f);
    first_conflict_is_first(around.existing, around.alias, f);
}

/// A line that is a directive adds one candidate of its type, and any other line adds none. Nothing
/// that follows changes a candidate.
pub proof fn candidates_follow_the_lines(
    around: Surroundings,
    default_bind: Seq<char>,
    lines: Seq<Seq<char>>,
    keyword: Seq<char>,
    value: Seq<char>,
)
    requires
        forall|i: int| 0 <= i < keyword.len() ==> !text::white_space(#[trigger] keyword[i]),
    ensures
        ({
            let earlier = candidates_of(around, default_bind, lines);
            let all = candidates_of(around, default_bind, lines.push(keyword.push(' ') + value));
            let word = text::lowered(keyword);
            let kind = if word == "localforward"@ {
                Some(DirectiveKind::Local)
            } else if word == "remoteforward"@ {
                Some(DirectiveKind::Remote)
            } else if word == "dynamicforward"@ {
                Some(DirectiveKind::Dynamic)
            } else {
                None
            };
            match kind {
                Some(kind) => {
                    &&& all.len() == earlier.len() + 1
                    &&& all.drop_last() == earlier
                    &&& all.last().kind == kind
                    &&& match forwarding_of(kind, text::trim(value), default_bind) {
                        Ok(f) => all.last().forwarding == Some(f) && all.last().verdict
                            == verdict_on(around, earlier, f),
                        Err(ParseFailure::Unsupported(reason)) => all.last().forwarding is None
                            && all.last().verdict == (Verdict::Unsupported { reason }),
                        Err(ParseFailure::Invalid(reason)) => all.last().forwarding is None
                            && all.last().verdict == (Verdict::Invalid { reason }),
                    }
                },
                None => all == earlier,
            }
        }),
{
    settings_read_back(keyword, ' ', value);
    let line = keyword.push(' ') + value;
    assert(lines.push(line).drop_last() =~= lines);
    let earlier = candidates_of(around, default_bind, lines);
    let all = candidates_of(around, default_bind, lines.push(line));
    if all.len() > earlier.len() {
        assert(all.drop_last() =~= earlier);
    }
}

/// A rule that is imported is named after its type and the port on which it listens.
pub proof fn imported_names_tell_type_and_port(f: ForwardingModel)
    ensures
        f is Local ==> base_name(f) == "local"@ + "-"@ + text::decimal(f.bind_port() as nat),
        f is Remote ==> base_name(f) == "remote"@ + "-"@ + text::decimal(f.bind_port() as nat),
        f is Dynamic ==> base_name(f) == "dynamic"@ + "-"@ + text::decimal(f.bind_port() as nat),
{
}

/// A name that is free stays as it is. Otherwise the smallest number from 2 on is put behind it
/// that makes it free.
pub proof fn taken_names_are_numbered(base: Seq<char>, taken: Seq<Seq<char>>)
    ensures
        !taken.contains(base) ==> free_name(base, taken) == base,
        taken.contains(base) ==> exists|n: nat|
            {
                &&& n >= 2
                &&& free_name(base, taken) == #[trigger] (base + "-"@ + text::decimal(n))
                &&& forall|k: nat|
                    2 <= k < n ==> taken.contains(#[trigger] (base + "-"@ + text::decimal(k)))
            },
{
    chosen_name_is_free(base, taken);
    free_number_bounds(base, taken, 1);
    let n = free_number(base, taken, 1);
    assert(numbered(base, 1) == base);
    if taken.contains(base) {
        assert(n != 1);
        assert(free_name(base, taken) == base + "-"@ + text::decimal(n));
        assert forall|k: nat| 2 <= k < n implies taken.contains(
            #[trigger] (base + "-"@ + text::decimal(k)),
        ) by {
            assert(taken.contains(numbered(base, k)));
        }
    } else if n != 1 {
        assert(taken.contains(numbered(base, 1)));
    }
}

/// Every selected candidate becomes one draft with its forwarding, and no other candidate does.
pub proof fn selected_candidates_are_drafted(
    candidates: Seq<CandidateModel>,
    selected: Seq<usize>,
    taken: Seq<Seq<char>>,
    n: nat,
)
    requires
        1 <= n <= candidates.len(),
    ensures
        ({
            let before = drafts_of(candidates.take(n - 1), selected, taken);
            let after = drafts_of(candidates.take(n as int), selected, taken);
            if exists|i: int| 0 <= i < selected.len() && #[trigger] selected[i] == n {
                &&& after.len() == before.len() + 1
                &&& after.drop_last() == before
                &&& candidates[n - 1].forwarding == Some(after.last().forwarding)
                    || candidates[n - 1].forwarding is None
                &&& !taken.contains(after.last().name)
                &&& !draft_names(before).contains(after.last().name)
            } else {
                after == before
            }
        }),
        drafts_of(candidates, Seq::<usize>::empty(), taken) == Seq::<Draft>::empty(),
    decreases candidates.len(),
{
    let prefix = candidates.take(n as int);
    assert(prefix.drop_last() =~= candidates.take(n - 1));
    assert(prefix.last() == candidates[n - 1]);
    let before = drafts_of(candidates.take(n - 1), selected, taken);
    let after = drafts_of(prefix, selected, taken);
    if exists|i: int| 0 <= i < selected.len() && #[trigger] selected[i] == n {
        let i = choose|i: int| 0 <= i < selected.len() && #[trigger] selected[i] == n;
        assert(selected[i] as nat == n);
        assert(has_number(selected, n));
        assert(after.drop_last() =~= before);
        let all = taken + draft_names(before);
        chosen_name_is_free(base_name(prefix.last().forwarding->0), all);
        let name = after.last().name;
        if taken.contains(name) {
            let k = choose|k: int| 0 <= k < taken.len() && taken[k] == name;
            assert(all[k] == name);
        }
        if draft_names(before).contains(name) {
            let k = choose|k: int| 0 <= k < draft_names(before).len() && draft_names(before)[k] == name;
            assert(all[taken.len() + k] == name);
        }
    }
    let none = Seq::<usize>::empty();
    assert(!has_number(none, candidates.len()));
    reveal_with_fuel(drafts_of, 2);
    if candidates.len() > 1 {
        selected_candidates_are_drafted(candidates.drop_last(), none, taken, 1);
    } else {
        assert(candidates.drop_last() =~= Seq::<CandidateModel>::empty());
    }
}

/// A draft becomes a rule of the host with the draft's name and forwarding and the given policy.
pub proof fn drafts_become_rules(
    draft: Draft,
    id: u128,
    alias: Seq<char>,
    auto_start: bool,
    reconnect: bool,
)
    ensures
        ({
            let m = drafted(draft, id, alias, auto_start, reconnect);
            &&& m.id == id
            &&& m.name == draft.name
            &&& m.ssh_host_alias == alias
            &&& m.forwarding == draft.forwarding
            &&& m.auto_start == auto_start
            &&& m.reconnect == reconnect
        }),
{
}

/// Only a candidate that can be saved and has a forwarding is imported. Candidates are counted
/// from 1.
pub proof fn only_supported_candidates_are_imported(
    candidates: Seq<CandidateModel>,
    number: usize,
)
    ensures
        number == 0 || number > candidates.len() ==> !importable(candidates, number),
        1 <= number <= candidates.len() && coherent(candidates) ==> (importable(candidates, number)
            <==> candidates[number - 1].verdict is Supported),
        refused_candidate(number) == "candidate "@ + text::decimal(number as nat)
            + " cannot be imported"@,
{
}

/// A forwarding that is shown has the endpoints that it holds.
pub proof fn shown_forwardings_keep_their_endpoints(f: ImportForwarding)
    ensures
        f matches ImportForwarding::Local {
            bind_address,
            bind_port,
            destination_host,
            destination_port,
        } ==> f@ is Local && f@.bind_address() == bind_address@ && f@.bind_port() == bind_port
            && destination(f@) == Some((destination_host@, destination_port)),
        f matches ImportForwarding::Remote {
            bind_address,
            bind_port,
            destination_host,
            destination_port,
        } ==> f@ is Remote && f@.bind_address() == bind_address@ && f@.bind_port() == bind_port
            && destination(f@) == Some((destination_host@, destination_port)),
        f matches ImportForwarding::Dynamic { bind_address, bind_port } ==> f@ is Dynamic
            && f@.bind_address() == bind_address@ && f@.bind_port() == bind_port,
{
}

/// The directive that asks for a forwarding, as a line of what `ssh -G` prints.
pub open spec fn printed(f: ForwardingModel) -> Seq<char> {
    let listener = written(f.bind_address(), f.bind_port());
    match f {
        ForwardingModel::Local { destination_host, destination_port, .. } => "localforward"@.push(
            ' ',
        ) + (listener.push(' ') + written(destination_host, destination_port)),
        ForwardingModel::Remote { destination_host, destination_port, .. } => "remoteforward"@.push(
            ' ',
        ) + (listener.push(' ') + written(destination_host, destination_port)),
        ForwardingModel::Dynamic { .. } => "dynamicforward"@.push(' ') + listener,
    }
}

proof fn small_letters_stay(s: Seq<char>)
    requires
        forall|i: int| 0 <= i < s.len() ==> 'a' <= #[trigger] s[i] <= 'z',
    ensures
        text::lowered(s) == s,
        !s.contains('\n'),
        forall|i: int| 0 <= i < s.len() ==> !text::white_space(#[trigger] s[i]),
{
    assert(text::lowered(s) =~= s);
}

proof fn keywords_are_small(s: Seq<char>)
    requires
        s == "localforward"@ || s == "remoteforward"@ || s == "dynamicforward"@,
    ensures
        text::lowered(s) == s,
        !s.contains('\n'),
        s.len() > 0,
        forall|i: int| 0 <= i < s.len() ==> !text::white_space(#[trigger] s[i]),
{
    reveal_strlit("localforward");
    reveal_strlit("remoteforward");
    reveal_strlit("dynamicforward");
    small_letters_stay(s);
}

proof fn values_are_on_one_line(a: Seq<char>, b: Seq<char>)
    requires
        a.len() > 0,
        b.len() > 0,
        forall|i: int| 0 <= i < a.len() ==> !text::white_space(#[trigger] a[i]),
        forall|i: int| 0 <= i < b.len() ==> !text::white_space(#[trigger] b[i]),
    ensures
        !(a.push(' ') + b).contains('\n'),
        !a.contains('\n'),
        text::trim(a.push(' ') + b) == a.push(' ') + b,
        text::trim(a) == a,
{
    let s = a.push(' ') + b;
    assert forall|i: int| 0 <= i < s.len() implies s[i] != '\n' by {
        if i < a.len() {
            assert(s[i] == a[i]);
        } else if i > a.len() {
            assert(s[i] == b[i - a.len() - 1]);
        }
    }
    assert(s[0] == a[0]);
    assert(s.last() == b[b.len() - 1]);
    text::trim_keeps(s);
    text::trim_keeps(a);
}

proof fn lone_lines_are_read(
    around: Surroundings,
    keyword: Seq<char>,
    value: Seq<char>,
    kind: DirectiveKind,
    f: ForwardingModel,
    default_bind: Seq<char>,
)
    requires
        keyword == "localforward"@ || keyword == "remoteforward"@ || keyword == "dynamicforward"@,
        kind_of(keyword) == Some(kind),
        !value.contains('\n'),
        value.len() > 0,
        text::trim(value) == value,
        default_bind == default_bind_of(seq![keyword.push(' ') + value]),
        forwarding_of(kind, value, default_bind) == Ok::<ForwardingModel, ParseFailure>(f),
    ensures
        preview_of(around, (keyword.push(' ') + value).push('\n')) == seq![
            CandidateModel {
                kind,
                forwarding: Some(f),
                verdict: verdict_on(around, Seq::empty(), f),
            },
        ],
{
    let line = keyword.push(' ') + value;
    let none = Seq::<Seq<char>>::empty();
    assert(text::lines(line.push('\n')) == seq![line]) by {
        keywords_are_small(keyword);
        text::trimmed_texts_stay(value);
        lone_line(keyword, value);
    }
    assert(text::lowered(keyword) == keyword && forall|i: int|
        0 <= i < keyword.len() ==> !text::white_space(#[trigger] keyword[i])) by {
        keywords_are_small(keyword);
    }
    directive_keywords(keyword);
    let before = candidates_of(around, default_bind, none);
    assert(before =~= Seq::<CandidateModel>::empty());
    assert(none.push(line) =~= seq![line]);
    one_candidate(around, default_bind, line, kind, value, f, keyword);
}

proof fn one_candidate(
    around: Surroundings,
    default_bind: Seq<char>,
    line: Seq<char>,
    kind: DirectiveKind,
    value: Seq<char>,
    f: ForwardingModel,
    keyword: Seq<char>,
)
    requires
        line == keyword.push(' ') + value,
        text::lowered(keyword) == keyword,
        forall|i: int| 0 <= i < keyword.len() ==> !text::white_space(#[trigger] keyword[i]),
        kind_of(keyword) == Some(kind),
        text::trim(value) == value,
        forwarding_of(kind, value, default_bind) == Ok::<ForwardingModel, ParseFailure>(f),
    ensures
        candidates_of(around, default_bind, seq![line]) == seq![
            CandidateModel {
                kind,
                forwarding: Some(f),
                verdict: verdict_on(around, Seq::empty(), f),
            },
        ],
{
    settings_read_back(keyword, ' ', value);
    let none = Seq::<Seq<char>>::empty();
    let before = candidates_of(around, default_bind, none);
    assert(before =~= Seq::<CandidateModel>::empty());
    assert(seq![line].drop_last() =~= none);
    assert(seq![line].last() == line);
    assert(directive_of(line) == Some((kind, value)));
}

proof fn lone_line(keyword: Seq<char>, value: Seq<char>)
    requires
        !keyword.contains('\n'),
        !value.contains('\n'),
        value.len() > 0,
        value.last() != '\r',
    ensures
        text::lines((keyword.push(' ') + value).push('\n')) == seq![keyword.push(' ') + value],
{
    let line = keyword.push(' ') + value;
    assert(line.last() == value.last());
    assert forall|i: int| 0 <= i < line.len() implies line[i] != '\n' by {
        if i < keyword.len() {
            assert(line[i] == keyword[i]);
            assert(keyword.contains(keyword[i]));
        } else if i > keyword.len() {
            assert(line[i] == value[i - keyword.len() - 1]);
            assert(value.contains(value[i - keyword.len() - 1]));
        }
    }
    text::a_lone_line(line);
}

/// What `ssh -G` prints for a valid forwarding is previewed as one candidate with exactly this
/// forwarding.
pub proof fn printed_forwardings_are_previewed(around: Surroundings, f: ForwardingModel)
    requires
        forwarding_valid(f),
        destination(f) matches Some((host, port)) ==> !host.contains(']') && !host.contains('/'),
    ensures
        preview_of(around, printed(f).push('\n')) == seq![
            CandidateModel {
                kind: match f {
                    ForwardingModel::Local { .. } => DirectiveKind::Local,
                    ForwardingModel::Remote { .. } => DirectiveKind::Remote,
                    ForwardingModel::Dynamic { .. } => DirectiveKind::Dynamic,
                },
                forwarding: Some(f),
                verdict: verdict_on(around, Seq::empty(), f),
            },
        ],
{
    let listener = written(f.bind_address(), f.bind_port());
    let bind = default_bind_of(seq![printed(f)]);
    bind_addresses_are_tellable(f.bind_address());
    written_is_a_word(f.bind_address(), f.bind_port());
    directives_read_back(f, bind);
    directive_keywords(Seq::empty());
    match f {
        ForwardingModel::Local { destination_host, destination_port, .. } => {
            destinations_are_tellable(destination_host);
            written_is_a_word(destination_host, destination_port);
            let target = written(destination_host, destination_port);
            values_are_on_one_line(listener, target);
            lone_lines_are_read(
                around,
                "localforward"@,
                listener.push(' ') + target,
                DirectiveKind::Local,
                f,
                bind,
            );
        },
        ForwardingModel::Remote { destination_host, destination_port, .. } => {
            destinations_are_tellable(destination_host);
            written_is_a_word(destination_host, destination_port);
            let target = written(destination_host, destination_port);
            values_are_on_one_line(listener, target);
            lone_lines_are_read(
                around,
                "remoteforward"@,
                listener.push(' ') + target,
                DirectiveKind::Remote,
                f,
                bind,
            );
        },
        ForwardingModel::Dynamic { .. } => {
            values_are_on_one_line(listener, listener);
            lone_lines_are_read(
                around,
                "dynamicforward"@,
                listener,
                DirectiveKind::Dynamic,
                f,
                bind,
            );
        },
    }
}

/// What a value says is what it holds.
pub proof fn candidates_say_what_they_hold(candidate: ImportCandidate)
    ensures
        candidate@.kind == candidate.kind,
        candidate.forwarding is None <==> candidate@.forwarding is None,
        candidate.forwarding matches Some(f) ==> candidate@.forwarding == Some(f@),
        match candidate.classification {
            ImportClassification::Supported => candidate@.verdict is Supported,
            ImportClassification::DuplicateDirective { first_index } => candidate@.verdict
                == (Verdict::DuplicateDirective { first_index: first_index as int }),
            ImportClassification::DuplicateRule { rule_id, running } => candidate@.verdict
                == (Verdict::DuplicateRule { rule_id: rule_id@, running }),
            ImportClassification::Conflict { rule_id, running } => candidate@.verdict
                matches Verdict::Conflict { rule_id: told, running: up } && up == running && (
            rule_id is None <==> told is None) && (rule_id matches Some(id) ==> told == Some(id@)),
            ImportClassification::Unsupported { reason } => candidate@.verdict
                == (Verdict::Unsupported { reason }),
            ImportClassification::Invalid { reason } => candidate@.verdict == (Verdict::Invalid {
                reason,
            }),
        },
{
}

/// A list says what its members say, in their order.
pub proof fn lists_say_what_their_members_say(
    candidates: Seq<ImportCandidate>,
    ids: Seq<RuleId>,
    rules: Seq<rule::RuleModel>,
    drafts: Seq<Draft>,
    i: int,
)
    ensures
        candidate_models(candidates).len() == candidates.len(),
        0 <= i < candidates.len() ==> candidate_models(candidates)[i] == candidates[i]@,
        uuids(ids).len() == ids.len(),
        0 <= i < ids.len() ==> uuids(ids)[i] == ids[i]@,
        rule_names(rules).len() == rules.len(),
        0 <= i < rules.len() ==> rule_names(rules)[i] == rules[i].name,
        draft_names(drafts).len() == drafts.len(),
        0 <= i < drafts.len() ==> draft_names(drafts)[i] == drafts[i].name,
{
}

} // verus!
