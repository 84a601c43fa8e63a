//! The single-pass archive scanner: a state machine over the forward-only
//! stream of entry events of one archive.
//!
//! For each entry whose name matches, the scanner either prints the name
//! (quiet mode) or streams the entry's bytes, guarding against binary
//! content by inspecting the first data chunk only. After the stream ends,
//! the per-archive status says whether this archive satisfied the pattern
//! set: in exact mode every distinct pattern must have been found, in regex
//! mode at least one entry.

use vstd::prelude::*;

use crate::matcher::Match;
use crate::matcher::MatchWith;
use crate::matcher::match_spec;

verus! {

/// One event of an archive's entry stream, in grammar order: an entry
/// starts, its data arrives chunk by chunk, the entry ends; a stream error
/// aborts the whole scan.
pub enum ArchiveEvent {
    Start(String),
    Data(Vec<u8>),
    End,
    Error(String),
}

/// The mathematical value of an archive event.
pub enum EventModel {
    Start(Seq<char>),
    Data(Seq<u8>),
    End,
    Error(Seq<char>),
}

impl View for ArchiveEvent {
    type V = EventModel;

    open spec fn view(&self) -> EventModel {
        match self {
            ArchiveEvent::Start(name) => EventModel::Start(name@),
            ArchiveEvent::Data(bytes) => EventModel::Data(bytes@),
            ArchiveEvent::End => EventModel::End,
            ArchiveEvent::Error(msg) => EventModel::Error(msg@),
        }
    }
}

impl DeepView for ArchiveEvent {
    type V = EventModel;

    open spec fn deep_view(&self) -> EventModel {
        self.view()
    }
}

/// How incoming data chunks of the current entry are treated.
#[derive(Clone, Copy, PartialEq, Eq, Structural, Debug)]
pub enum EntryState {
    Skip,
    FirstChunk,
    Reading,
}

/// The scanner's per-entry context: the chunk discipline, the count of
/// matched entries so far, and the name of the entry being streamed.
pub struct ScanState {
    pub state: EntryState,
    pub found: usize,
    pub cur_file: String,
}

/// The mathematical value of the scanner context.
pub struct StateModel {
    pub state: EntryState,
    pub found: nat,
    pub cur: Seq<char>,
}

impl View for ScanState {
    type V = StateModel;

    open spec fn view(&self) -> StateModel {
        StateModel { state: self.state, found: self.found as nat, cur: self.cur_file@ }
    }
}

/// What one step of the scanner asks its caller to do.
pub enum ScanAction {
    Ignore,
    PrintName(String),
    WriteBytes(Vec<u8>),
    BinaryNotice(String),
    Abort(String),
}

/// The mathematical value of a scanner action.
pub enum ActionModel {
    Ignore,
    PrintName(Seq<char>),
    WriteBytes(Seq<u8>),
    BinaryNotice(Seq<char>),
    Abort(Seq<char>),
}

impl View for ScanAction {
    type V = ActionModel;

    open spec fn view(&self) -> ActionModel {
        match self {
            ScanAction::Ignore => ActionModel::Ignore,
            ScanAction::PrintName(name) => ActionModel::PrintName(name@),
            ScanAction::WriteBytes(bytes) => ActionModel::WriteBytes(bytes@),
            ScanAction::BinaryNotice(name) => ActionModel::BinaryNotice(name@),
            ScanAction::Abort(msg) => ActionModel::Abort(msg@),
        }
    }
}

/// Whether a chunk is flagged binary: a zero byte among its first 512 bytes.
pub open spec fn has_zero_prefix(data: Seq<u8>) -> bool {
    exists|i: int| 0 <= i < data.len() && i < 512 && data[i] == 0u8
}

/// Tells whether a data chunk looks binary: any zero byte among the first
/// 512 bytes of the chunk flags it. The heuristic looks no further.
pub fn is_binary(data: &[u8]) -> (r: bool)
    ensures
        r == has_zero_prefix(data@),
{
    let n = if data.len() < 512 {
        data.len()
    } else {
        512
    };
    let mut j: usize = 0;
    while j < n
        invariant
            0 <= j <= n <= data@.len(),
            n == if data@.len() < 512 {
                data@.len() as int
            } else {
                512int
            },
            forall|i: int| 0 <= i < j ==> data@[i] != 0u8,
        decreases n - j,
    {
        if data[j] == 0 {
            return true;
        }
        j += 1;
    }
    false
}

/// One transition of the scanner: from the current context and one event to
/// the next context and the action owed to the output sink.
pub open spec fn step_spec(
    regex: bool,
    patterns: Seq<Seq<char>>,
    exact_path: bool,
    quiet: bool,
    allow_binary: bool,
    st: StateModel,
    ev: EventModel,
) -> (StateModel, ActionModel) {
    match ev {
        EventModel::Start(name) => {
            if match_spec(regex, patterns, exact_path, name) {
                if quiet {
                    (
                        StateModel { state: EntryState::Skip, found: st.found + 1, cur: st.cur },
                        ActionModel::PrintName(name),
                    )
                } else {
                    (
                        StateModel { state: EntryState::FirstChunk, found: st.found + 1, cur: name },
                        ActionModel::Ignore,
                    )
                }
            } else {
                (
                    StateModel { state: EntryState::Skip, found: st.found, cur: st.cur },
                    ActionModel::Ignore,
                )
            }
        },
        EventModel::Data(bytes) => match st.state {
            EntryState::FirstChunk => {
                if has_zero_prefix(bytes) && !allow_binary {
                    (
                        StateModel { state: EntryState::Skip, found: st.found, cur: st.cur },
                        ActionModel::BinaryNotice(st.cur),
                    )
                } else {
                    (
                        StateModel { state: EntryState::Reading, found: st.found, cur: st.cur },
                        ActionModel::WriteBytes(bytes),
                    )
                }
            },
            EntryState::Reading => (st, ActionModel::WriteBytes(bytes)),
            EntryState::Skip => (st, ActionModel::Ignore),
        },
        EventModel::End => (
            StateModel { state: EntryState::Skip, found: st.found, cur: st.cur },
            ActionModel::Ignore,
        ),
        EventModel::Error(msg) => (st, ActionModel::Abort(msg)),
    }
}

/// Performs one transition of the scanner on one event.
pub fn scan_step(
    st: ScanState,
    ev: ArchiveEvent,
    matcher: &Match,
    quiet: bool,
    allow_binary: bool,
) -> (r: (ScanState, ScanAction))
    requires
        st.found < usize::MAX,
    ensures
        (r.0@, r.1@) == step_spec(
            matcher.is_regex(),
            matcher.patterns(),
            matcher.exact_file,
            quiet,
            allow_binary,
            st@,
            ev@,
        ),
{
    match ev {
        ArchiveEvent::Start(name) => {
            if matcher.is_match(name.as_str()) {
                if quiet {
                    (
                        ScanState {
                            state: EntryState::Skip,
                            found: st.found + 1,
                            cur_file: st.cur_file,
                        },
                        ScanAction::PrintName(name),
                    )
                } else {
                    (
                        ScanState {
                            state: EntryState::FirstChunk,
                            found: st.found + 1,
                            cur_file: name,
                        },
                        ScanAction::Ignore,
                    )
                }
            } else {
                (
                    ScanState { state: EntryState::Skip, found: st.found, cur_file: st.cur_file },
                    ScanAction::Ignore,
                )
            }
        },
        ArchiveEvent::Data(bytes) => match st.state {
            EntryState::FirstChunk => {
                if is_binary(bytes.as_slice()) && !allow_binary {
                    let notice = st.cur_file.clone();
                    (
                        ScanState { state: EntryState::Skip, found: st.found, cur_file: st.cur_file },
                        ScanAction::BinaryNotice(notice),
                    )
                } else {
                    (
                        ScanState {
                            state: EntryState::Reading,
                            found: st.found,
                            cur_file: st.cur_file,
                        },
                        ScanAction::WriteBytes(bytes),
                    )
                }
            },
            EntryState::Reading => (st, ScanAction::WriteBytes(bytes)),
            EntryState::Skip => (st, ScanAction::Ignore),
        },
        ArchiveEvent::End => (
            ScanState { state: EntryState::Skip, found: st.found, cur_file: st.cur_file },
            ScanAction::Ignore,
        ),
        ArchiveEvent::Error(msg) => (st, ScanAction::Abort(msg)),
    }
}

/// One item written to the output sink: a matched entry's name (quiet
/// mode), or a run of its decoded bytes.
pub enum OutputItem {
    Name(String),
    Bytes(Vec<u8>),
}

/// The mathematical value of an output item.
pub enum OutModel {
    Name(Seq<char>),
    Bytes(Seq<u8>),
}

impl View for OutputItem {
    type V = OutModel;

    open spec fn view(&self) -> OutModel {
        match self {
            OutputItem::Name(name) => OutModel::Name(name@),
            OutputItem::Bytes(bytes) => OutModel::Bytes(bytes@),
        }
    }
}

impl DeepView for OutputItem {
    type V = OutModel;

    open spec fn deep_view(&self) -> OutModel {
        self.view()
    }
}

/// Everything a whole scan accumulates: the scanner context, the output
/// items in order, the names flagged binary, and the first stream error.
pub struct ScanModel {
    pub st: StateModel,
    pub out: Seq<OutModel>,
    pub diags: Seq<Seq<char>>,
    pub err: Option<Seq<char>>,
}

/// The scan before any event: skipping, nothing found, nothing written.
pub open spec fn scan_init() -> ScanModel {
    ScanModel {
        st: StateModel { state: EntryState::Skip, found: 0, cur: Seq::<char>::empty() },
        out: Seq::<OutModel>::empty(),
        diags: Seq::<Seq<char>>::empty(),
        err: None,
    }
}

/// Records one transition's action in the accumulated scan.
pub open spec fn apply_action(m: ScanModel, st: StateModel, a: ActionModel) -> ScanModel {
    match a {
        ActionModel::Ignore => ScanModel { st, out: m.out, diags: m.diags, err: m.err },
        ActionModel::PrintName(name) => ScanModel {
            st,
            out: m.out.push(OutModel::Name(name)),
            diags: m.diags,
            err: m.err,
        },
        ActionModel::WriteBytes(bytes) => ScanModel {
            st,
            out: m.out.push(OutModel::Bytes(bytes)),
            diags: m.diags,
            err: m.err,
        },
        ActionModel::BinaryNotice(name) => ScanModel {
            st,
            out: m.out,
            diags: m.diags.push(name),
            err: m.err,
        },
        ActionModel::Abort(msg) => ScanModel { st, out: m.out, diags: m.diags, err: Some(msg) },
    }
}

/// The scan of a whole event sequence: fold the transition over the events,
/// stopping at the first stream error.
pub open spec fn scan_fold(
    regex: bool,
    patterns: Seq<Seq<char>>,
    exact_path: bool,
    quiet: bool,
    allow_binary: bool,
    events: Seq<EventModel>,
) -> ScanModel
    decreases events.len(),
{
    if events.len() == 0 {
        scan_init()
    } else {
        let prev = scan_fold(regex, patterns, exact_path, quiet, allow_binary, events.drop_last());
        if prev.err is Some {
            prev
        } else {
            let (st, a) = step_spec(
                regex,
                patterns,
                exact_path,
                quiet,
                allow_binary,
                prev.st,
                events.last(),
            );
            apply_action(prev, st, a)
        }
    }
}

/// Once the fold has hit a stream error, later events change nothing.
pub proof fn lemma_fold_absorbs_error(
    regex: bool,
    patterns: Seq<Seq<char>>,
    exact_path: bool,
    quiet: bool,
    allow_binary: bool,
    events: Seq<EventModel>,
    k: int,
)
    requires
        0 <= k <= events.len(),
        scan_fold(regex, patterns, exact_path, quiet, allow_binary, events.take(k)).err is Some,
    ensures
        scan_fold(regex, patterns, exact_path, quiet, allow_binary, events) == scan_fold(
            regex,
            patterns,
            exact_path,
            quiet,
            allow_binary,
            events.take(k),
        ),
    decreases events.len() - k,
{
    if events.len() == k {
        assert(events.take(k) =~= events);
    } else {
        let t = events.drop_last();
        assert(t.take(k) =~= events.take(k));
        lemma_fold_absorbs_error(regex, patterns, exact_path, quiet, allow_binary, t, k);
    }
}

/// The number of distinct pattern strings in the set, counting each string
/// once however often it was given.
pub open spec fn distinct_count(pats: Seq<Seq<char>>) -> nat
    decreases pats.len(),
{
    if pats.len() == 0 {
        0
    } else {
        distinct_count(pats.drop_last()) + if pats.drop_last().contains(pats.last()) {
            0nat
        } else {
            1nat
        }
    }
}

/// Exact mode is multiset-insensitive: the found-count an archive must
/// reach is the size of the set of pattern strings, so how often a pattern
/// was repeated on the command line changes nothing.
pub proof fn lemma_distinct_count_is_set_size(pats: Seq<Seq<char>>)
    ensures
        distinct_count(pats) == pats.to_set().len(),
    decreases pats.len(),
{
    broadcast use vstd::set::group_set_axioms;
    broadcast use vstd::seq_lib::seq_to_set_is_finite;

    if pats.len() == 0 {
        assert(pats.to_set() =~= Set::<Seq<char>>::empty());
    } else {
        let t = pats.drop_last();
        lemma_distinct_count_is_set_size(t);
        assert forall|x: Seq<char>| pats.to_set().contains(x) implies t.to_set().insert(
            pats.last(),
        ).contains(x) by {
            let i = choose|i: int| 0 <= i < pats.len() && pats[i] == x;
            if i < pats.len() - 1 {
                assert(t[i] == x);
                assert(t.contains(x));
            }
        }
        assert forall|x: Seq<char>|
            t.to_set().insert(pats.last()).contains(x) implies pats.to_set().contains(x) by {
            if t.to_set().contains(x) {
                let i = choose|i: int| 0 <= i < t.len() && t[i] == x;
                assert(pats[i] == x);
            } else {
                assert(pats[pats.len() - 1] == x);
            }
        }
        assert(pats.to_set() =~= t.to_set().insert(pats.last()));
        if t.contains(pats.last()) {
            assert(t.to_set().contains(pats.last()));
        } else {
            assert(!t.to_set().contains(pats.last()));
        }
    }
}

/// The status one archive reports: in regex mode success means at least one
/// entry matched; in exact mode it means as many matches as there are
/// distinct patterns. Evaluated per archive, never across archives.
pub open spec fn archive_status(regex: bool, patterns: Seq<Seq<char>>, found: nat) -> int {
    if regex {
        if found != 0 {
            0
        } else {
            1
        }
    } else {
        if found == distinct_count(patterns) {
            0
        } else {
            1
        }
    }
}

/// Tells whether `pats[i]` already occurs among the patterns before it.
fn occurs_before(pats: &Vec<String>, i: usize) -> (r: bool)
    requires
        i < pats.len(),
    ensures
        r == pats.deep_view().take(i as int).contains(pats.deep_view()[i as int]),
{
    let mut j: usize = 0;
    while j < i
        invariant
            0 <= j <= i < pats.len(),
            forall|k: int| 0 <= k < j ==> pats.deep_view()[k] != pats.deep_view()[i as int],
        decreases i - j,
    {
        let a: &String = &pats[j];
        let b: &String = &pats[i];
        if a.eq(b) {
            assert(pats.deep_view().take(i as int)[j as int] == pats.deep_view()[i as int]);
            return true;
        }
        j += 1;
    }
    proof {
        let dv = pats.deep_view();
        assert forall|k: int| 0 <= k < i implies dv.take(i as int)[k] != dv[i as int] by {
            assert(dv.take(i as int)[k] == dv[k]);
        }
    }
    false
}

/// Counts the distinct pattern strings in the list.
pub fn distinct_strings(pats: &Vec<String>) -> (r: usize)
    ensures
        r as nat == distinct_count(pats.deep_view()),
{
    let ghost dv = pats.deep_view();
    let mut count: usize = 0;
    let mut i: usize = 0;
    while i < pats.len()
        invariant
            0 <= i <= pats.len(),
            dv == pats.deep_view(),
            dv.len() == pats.len(),
            count as nat == distinct_count(dv.take(i as int)),
            count <= i,
        decreases pats.len() - i,
    {
        let dup = occurs_before(pats, i);
        proof {
            assert(dv.take(i + 1).drop_last() =~= dv.take(i as int));
            assert(dv.take(i + 1).last() == dv[i as int]);
        }
        if !dup {
            count += 1;
        }
        i += 1;
    }
    proof {
        assert(dv.take(pats.len() as int) =~= dv);
    }
    count
}

/// Computes the status this archive reports for the given found-count.
pub fn archive_status_of(matcher: &Match, found: usize) -> (r: i32)
    ensures
        r as int == archive_status(matcher.is_regex(), matcher.patterns(), found as nat),
        r == 0 || r == 1,
{
    match &matcher.with {
        MatchWith::Regex(_) => {
            if found != 0 {
                0
            } else {
                1
            }
        },
        MatchWith::Files(pats) => {
            let d = distinct_strings(pats);
            if found == d {
                0
            } else {
                1
            }
        },
    }
}

/// What one whole archive scan yields: the matched-entry count, the output
/// items in order, the entries flagged binary, and the archive's status.
pub struct ScanResult {
    pub found: usize,
    pub output: Vec<OutputItem>,
    pub diagnostics: Vec<String>,
    pub status: i32,
}

fn clone_bytes(v: &Vec<u8>) -> (r: Vec<u8>)
    ensures
        r@ == v@,
{
    let mut r: Vec<u8> = Vec::new();
    let mut i: usize = 0;
    while i < v.len()
        invariant
            0 <= i <= v.len(),
            r@ == v@.take(i as int),
        decreases v.len() - i,
    {
        r.push(v[i]);
        proof {
            assert(v@.take(i + 1) =~= v@.take(i as int).push(v@[i as int]));
        }
        i += 1;
    }
    proof {
        assert(v@.take(v@.len() as int) =~= v@);
    }
    r
}

fn clone_event(ev: &ArchiveEvent) -> (r: ArchiveEvent)
    ensures
        r@ == ev@,
{
    match ev {
        ArchiveEvent::Start(name) => ArchiveEvent::Start(name.clone()),
        ArchiveEvent::Data(bytes) => ArchiveEvent::Data(clone_bytes(bytes)),
        ArchiveEvent::End => ArchiveEvent::End,
        ArchiveEvent::Error(msg) => ArchiveEvent::Error(msg.clone()),
    }
}

/// Scans one archive's whole event sequence with the shared matcher.
/// Returns the stream error if one occurred, else the found-count, the
/// output owed to the sink, the binary diagnostics, and this archive's
/// status.
pub fn scan_archive(
    events: &Vec<ArchiveEvent>,
    matcher: &Match,
    quiet: bool,
    allow_binary: bool,
) -> (r: Result<ScanResult, String>)
    ensures
        ({
            let m = scan_fold(
                matcher.is_regex(),
                matcher.patterns(),
                matcher.exact_file,
                quiet,
                allow_binary,
                events.deep_view(),
            );
            &&& (r is Err <==> m.err is Some)
            &&& (r matches Err(e) ==> m.err matches Some(msg) && e@ == msg)
            &&& (r matches Ok(res) ==> {
                &&& res.found as nat == m.st.found
                &&& res.output.deep_view() == m.out
                &&& res.diagnostics.deep_view() == m.diags
                &&& res.status as int == archive_status(
                    matcher.is_regex(),
                    matcher.patterns(),
                    m.st.found,
                )
                &&& res.status == 0 || res.status == 1
            })
        }),
{
    let ghost regex = matcher.is_regex();
    let ghost patterns = matcher.patterns();
    let ghost exact_path = matcher.exact_file;
    let ghost dv = events.deep_view();
    let mut st = ScanState { state: EntryState::Skip, found: 0, cur_file: String::new() };
    let mut output: Vec<OutputItem> = Vec::new();
    let mut diags: Vec<String> = Vec::new();
    let mut i: usize = 0;
    proof {
        assert(dv.take(0) =~= Seq::<EventModel>::empty());
        assert(output.deep_view() =~= Seq::<OutModel>::empty());
        assert(diags.deep_view() =~= Seq::<Seq<char>>::empty());
    }
    while i < events.len()
        invariant
            0 <= i <= events.len(),
            dv == events.deep_view(),
            dv.len() == events.len(),
            st.found <= i,
            scan_fold(regex, patterns, exact_path, quiet, allow_binary, dv.take(i as int))
                == (ScanModel {
                st: st@,
                out: output.deep_view(),
                diags: diags.deep_view(),
                err: None::<Seq<char>>,
            }),
            regex == matcher.is_regex(),
            patterns == matcher.patterns(),
            exact_path == matcher.exact_file,
        decreases events.len() - i,
    {
        let ev = clone_event(&events[i]);
        proof {
            assert(dv.take(i + 1).drop_last() =~= dv.take(i as int));
            assert(dv.take(i + 1).last() == dv[i as int]);
            assert(ev@ == dv[i as int]);
        }
        let (st2, action) = scan_step(st, ev, matcher, quiet, allow_binary);
        st = st2;
        match action {
            ScanAction::Ignore => {},
            ScanAction::PrintName(name) => {
                let ghost prev = output.deep_view();
                let ghost nv = name@;
                output.push(OutputItem::Name(name));
                proof {
                    assert(output.deep_view() =~= prev.push(OutModel::Name(nv)));
                }
            },
            ScanAction::WriteBytes(bytes) => {
                let ghost prev = output.deep_view();
                let ghost bv = bytes@;
                output.push(OutputItem::Bytes(bytes));
                proof {
                    assert(output.deep_view() =~= prev.push(OutModel::Bytes(bv)));
                }
            },
            ScanAction::BinaryNotice(name) => {
                let ghost prev = diags.deep_view();
                let ghost nv = name@;
                diags.push(name);
                proof {
                    assert(diags.deep_view() =~= prev.push(nv));
                }
            },
            ScanAction::Abort(msg) => {
                proof {
                    lemma_fold_absorbs_error(
                        regex,
                        patterns,
                        exact_path,
                        quiet,
                        allow_binary,
                        dv,
                        i + 1,
                    );
                }
                return Err(msg);
            },
        }
        i += 1;
    }
    proof {
        assert(dv.take(events.len() as int) =~= dv);
    }
    let status = archive_status_of(matcher, st.found);
    Ok(ScanResult { found: st.found, output, diagnostics: diags, status })
}

/// In quiet mode the scanner never enters a streaming state: it flags no
/// entry binary and writes no entry bytes, only matched names — exactly
/// one per matched entry.
pub proof fn lemma_quiet_scan(
    regex: bool,
    patterns: Seq<Seq<char>>,
    exact_path: bool,
    allow_binary: bool,
    events: Seq<EventModel>,
)
    ensures
        ({
            let m = scan_fold(regex, patterns, exact_path, true, allow_binary, events);
            &&& m.st.state == EntryState::Skip
            &&& m.diags == Seq::<Seq<char>>::empty()
            &&& m.out.len() == m.st.found
            &&& forall|k: int| 0 <= k < m.out.len() ==> m.out[k] is Name
        }),
    decreases events.len(),
{
    if events.len() == 0 {
    } else {
        lemma_quiet_scan(regex, patterns, exact_path, allow_binary, events.drop_last());
    }
}

} // verus!

