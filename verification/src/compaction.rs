//! History compaction: which part of a transcript is summarized, which recent turns and
//! delegation results survive it, and the transcript that replaces it.
use vstd::prelude::*;

use crate::text::{join_texts, joined_with, push_range, string_views, trim_text, trimmed};

verus! {

/// Where compaction may run: locally (a summary request), remotely (the provider's own
/// compaction), or remotely with a local fallback.
#[derive(Debug, Clone, Copy, PartialEq, Eq, Structural)]
pub enum CompactionMode {
    LocalOnly,
    PreferRemote,
    RemoteOnly,
}

impl Default for CompactionMode {
    fn default() -> (r: CompactionMode)
        ensures
            r == CompactionMode::LocalOnly,
    {
        CompactionMode::LocalOnly
    }
}

/// Where a compaction actually ran.
#[derive(Debug, Clone, Copy, PartialEq, Eq, Structural)]
pub enum CompactionExecutionMode {
    Local,
    Remote,
}

/// The kinds of transcript entries.
#[derive(Debug, Clone, Copy, PartialEq, Eq, Structural)]
pub enum TranscriptKind {
    UserTurn,
    AssistantTurn,
    ToolExchange { is_error: bool },
    CanonicalContext,
    MemoryRecall,
    DelegationRequest,
    DelegationResult,
    CompactionSummary,
}

/// One transcript entry: its kind and its text.
#[derive(Debug, Clone, PartialEq, Eq)]
pub struct TranscriptItem {
    pub kind: TranscriptKind,
    pub text: String,
}

pub struct ItemView {
    pub kind: TranscriptKind,
    pub text: Seq<char>,
}

impl View for TranscriptItem {
    type V = ItemView;

    open spec fn view(&self) -> ItemView {
        ItemView { kind: self.kind, text: self.text@ }
    }
}

pub open spec fn item_views(s: Seq<TranscriptItem>) -> Seq<ItemView> {
    s.map_values(|t: TranscriptItem| t@)
}

impl TranscriptItem {
    pub fn duplicate(&self) -> (r: TranscriptItem)
        ensures
            r@ == self@,
    {
        TranscriptItem { kind: self.kind, text: self.text.clone() }
    }

    fn same_as(&self, other: &TranscriptItem) -> (r: bool)
        ensures
            r == (self@ == other@),
    {
        self.kind == other.kind && crate::text::str_eq(self.text.as_str(), other.text.as_str())
    }
}

/// A rough token count: a quarter of the characters, rounded up.
pub open spec fn tokens(text: Seq<char>) -> nat {
    ((text.len() + 3) / 4) as nat
}

/// Approximate number of tokens in `text`.
pub fn approx_token_count(text: &str) -> (r: usize)
    ensures
        r == tokens(text@),
{
    let n = text.unicode_len();
    n / 4 + if n % 4 == 0 {
        0
    } else {
        1
    }
}

/// At most the first `max_chars` characters of `input`.
pub fn truncate_to_char_boundary(input: &str, max_chars: usize) -> (r: String)
    ensures
        r@ == input@.take(if max_chars < input@.len() { max_chars as int } else { input@.len() as int }),
{
    let n = input.unicode_len();
    let end = if max_chars < n {
        max_chars
    } else {
        n
    };
    let mut out = String::new();
    push_range(&mut out, input, 0, end);
    assert(input@.subrange(0, end as int) =~= input@.take(end as int));
    out
}

/// Where the kept tail of a transcript starts: the last entry, or, when it is a tool exchange
/// answering the assistant turn before it, that assistant turn.
pub open spec fn tail_start(items: Seq<ItemView>) -> nat {
    let n = items.len();
    if n == 0 {
        0
    } else if items[n - 1].kind is ToolExchange && n >= 2 && items[n - 2].kind == TranscriptKind::AssistantTurn {
        (n - 2) as nat
    } else {
        (n - 1) as nat
    }
}

/// The token estimate is the character count divided by four, rounded up: four tokens cover
/// at least the text, and one fewer would not.
pub proof fn law_token_count(text: Seq<char>)
    ensures
        4 * tokens(text) >= text.len(),
        4 * tokens(text) < text.len() + 4,
        text.len() == 0 ==> tokens(text) == 0,
{
}

/// The kept tail of a non-empty transcript is its last entry, or the last two when the last is
/// a tool exchange answering the assistant turn right before it; an empty transcript keeps
/// nothing.
pub proof fn law_tail_start(items: Seq<ItemView>)
    ensures
        items.len() == 0 ==> tail_start(items) == 0,
        items.len() > 0 ==> tail_start(items) < items.len(),
        items.len() > 0 ==> (tail_start(items) == items.len() - 2 <==> (items.len() >= 2 && items.last().kind
            is ToolExchange && items[items.len() - 2].kind == TranscriptKind::AssistantTurn)),
        items.len() > 0 ==> (tail_start(items) == items.len() - 1 <==> !(items.len() >= 2 && items.last().kind
            is ToolExchange && items[items.len() - 2].kind == TranscriptKind::AssistantTurn)),
{
}

/// Where the entries that a continuation needs start.
pub fn required_tail_start_for_continuation(items: &Vec<TranscriptItem>) -> (r: usize)
    ensures
        r == tail_start(item_views(items@)),
{
    let n = items.len();
    if n == 0 {
        return 0;
    }
    let last_index = n - 1;
    let last_is_tool = match items[last_index].kind {
        TranscriptKind::ToolExchange { .. } => true,
        _ => false,
    };
    if last_is_tool && last_index > 0 && items[last_index - 1].kind == TranscriptKind::AssistantTurn {
        last_index - 1
    } else {
        last_index
    }
}

/// The user turns kept through a compaction: walking back from the newest, each user turn is
/// taken while the token budget lasts (the newest always), until the budget is spent.
pub open spec fn pick_user_turns(items: Seq<ItemView>, remaining: nat, started: bool) -> Seq<ItemView>
    decreases items.len(),
{
    if items.len() == 0 {
        Seq::empty()
    } else {
        let it = items.last();
        if it.kind != TranscriptKind::UserTurn {
            pick_user_turns(items.drop_last(), remaining, started)
        } else {
            let t = tokens(it.text);
            if t > remaining && started {
                Seq::empty()
            } else {
                let r2: nat = if t > remaining {
                    0
                } else {
                    (remaining - t) as nat
                };
                if r2 == 0 {
                    seq![it]
                } else {
                    pick_user_turns(items.drop_last(), r2, true).push(it)
                }
            }
        }
    }
}

/// The most recent user turns that fit in `token_budget`, in transcript order.
pub fn select_recent_user_turns(items: &Vec<TranscriptItem>, token_budget: usize) -> (r: Vec<TranscriptItem>)
    ensures
        item_views(r@) == pick_user_turns(item_views(items@), token_budget as nat, false),
{
    let ghost all = item_views(items@);
    let mut acc: Vec<TranscriptItem> = Vec::new();
    let mut remaining = token_budget;
    let mut started = false;
    let mut i = items.len();
    proof {
        assert(all.take(i as int) =~= all);
        assert(item_views(acc@) =~= Seq::<ItemView>::empty());
        assert(pick_user_turns(all.take(i as int), remaining as nat, started) + item_views(acc@) =~= pick_user_turns(
            all,
            token_budget as nat,
            false,
        ));
    }
    while i > 0
        invariant
            i <= items@.len(),
            all == item_views(items@),
            pick_user_turns(all, token_budget as nat, false) == pick_user_turns(all.take(i as int), remaining as nat, started)
                + item_views(acc@),
        decreases i,
    {
        let ghost pre = all.take(i as int);
        let ghost before = item_views(acc@);
        proof {
            assert(pre.drop_last() =~= all.take(i - 1));
            assert(pre.last() == items@[i - 1]@);
        }
        let item = &items[i - 1];
        if item.kind != TranscriptKind::UserTurn {
            i -= 1;
        } else {
            let t = approx_token_count(item.text.as_str());
            if t > remaining && started {
                proof {
                    assert(pick_user_turns(pre, remaining as nat, started) =~= Seq::<ItemView>::empty());
                    assert(all.take(0) =~= Seq::<ItemView>::empty());
                    assert(Seq::<ItemView>::empty() + item_views(acc@) =~= item_views(acc@));
                }
                i = 0;
            } else {
                let r2 = if t > remaining {
                    0
                } else {
                    remaining - t
                };
                acc.insert(0, item.duplicate());
                proof {
                    assert(item_views(acc@) =~= seq![item@] + before);
                }
                if r2 == 0 {
                    proof {
                        assert(pick_user_turns(pre, remaining as nat, started) == seq![item@]);
                        assert(all.take(0) =~= Seq::<ItemView>::empty());
                        assert(Seq::<ItemView>::empty() + item_views(acc@) =~= seq![item@] + before);
                    }
                    i = 0;
                    remaining = 0;
                } else {
                    proof {
                        assert(pick_user_turns(pre, remaining as nat, started) == pick_user_turns(
                            all.take(i - 1),
                            r2 as nat,
                            true,
                        ).push(item@));
                        assert(pick_user_turns(all.take(i - 1), r2 as nat, true).push(item@) + before
                            =~= pick_user_turns(all.take(i - 1), r2 as nat, true) + item_views(acc@));
                    }
                    remaining = r2;
                    started = true;
                    i -= 1;
                }
            }
        }
    }
    proof {
        assert(all.take(0) =~= Seq::<ItemView>::empty());
        assert(Seq::<ItemView>::empty() + item_views(acc@) =~= item_views(acc@));
    }
    acc
}

pub open spec fn is_delegation_result(i: ItemView) -> bool {
    i.kind == TranscriptKind::DelegationResult
}

pub open spec fn delegation_pred() -> spec_fn(ItemView) -> bool {
    |i: ItemView| is_delegation_result(i)
}

/// The last `n` elements of `s` (all of them when there are fewer).
pub open spec fn last_n<A>(s: Seq<A>, n: nat) -> Seq<A> {
    if n >= s.len() {
        s
    } else {
        s.skip(s.len() - n)
    }
}

/// The `max_items` most recent delegation results, in transcript order.
pub fn select_recent_delegation_results(items: &Vec<TranscriptItem>, max_items: usize) -> (r: Vec<TranscriptItem>)
    ensures
        item_views(r@) == last_n(item_views(items@).filter(delegation_pred()), max_items as nat),
{
    let ghost all = item_views(items@);
    let mut acc: Vec<TranscriptItem> = Vec::new();
    let mut i = items.len();
    proof {
        assert(all.skip(i as int) =~= Seq::<ItemView>::empty());
        reveal(Seq::filter);
        assert(item_views(acc@) =~= last_n(all.skip(i as int).filter(delegation_pred()), max_items as nat));
    }
    while i > 0
        invariant
            i <= items@.len(),
            all == item_views(items@),
            item_views(acc@) == last_n(all.skip(i as int).filter(delegation_pred()), max_items as nat),
        decreases i,
    {
        let ghost rest = all.skip(i as int);
        let ghost x = all[i - 1];
        proof {
            assert(all.skip(i - 1) =~= seq![x] + rest);
            Seq::filter_distributes_over_add(seq![x], rest, delegation_pred());
            reveal(Seq::filter);
            assert(seq![x].drop_last() =~= Seq::<ItemView>::empty());
        }
        let item = &items[i - 1];
        let ghost before = item_views(acc@);
        if item.kind == TranscriptKind::DelegationResult && acc.len() < max_items {
            acc.insert(0, item.duplicate());
            proof {
                assert(item_views(acc@) =~= seq![x] + before);
                assert(seq![x].filter(delegation_pred()) =~= seq![x]);
                let f = rest.filter(delegation_pred());
                assert(before == f);
                assert(item_views(acc@) =~= last_n(all.skip(i - 1).filter(delegation_pred()), max_items as nat));
            }
        } else {
            proof {
                let f = rest.filter(delegation_pred());
                if item.kind == TranscriptKind::DelegationResult {
                    reveal(Seq::filter);
                    assert(seq![x].drop_last() =~= Seq::<ItemView>::empty());
                    assert(seq![x].filter(delegation_pred()) =~= seq![x]);
                    assert(f.len() >= max_items);
                    assert((seq![x] + f).skip((seq![x] + f).len() - max_items) =~= f.skip(f.len() - max_items));
                } else {
                    reveal(Seq::filter);
                    assert(x == item@);
                    assert(!delegation_pred()(x));
                    assert(seq![x].drop_last() =~= Seq::<ItemView>::empty());
                    assert(seq![x].last() == x);
                    assert(Seq::<ItemView>::empty().filter(delegation_pred()) =~= Seq::<ItemView>::empty());
                    assert(seq![x].filter(delegation_pred()) =~= Seq::<ItemView>::empty());
                    assert(Seq::<ItemView>::empty() + f =~= f);
                }
            }
        }
        i -= 1;
    }
    proof {
        assert(all.skip(0) =~= all);
    }
    acc
}

/// `acc` extended by each of `ds` not already in it.
pub open spec fn dedup_append(acc: Seq<ItemView>, ds: Seq<ItemView>) -> Seq<ItemView>
    decreases ds.len(),
{
    if ds.len() == 0 {
        acc
    } else {
        let a = dedup_append(acc, ds.drop_last());
        if a.contains(ds.last()) {
            a
        } else {
            a.push(ds.last())
        }
    }
}

/// A compacted transcript ends with the kept tail, unchanged, right after the summary.
pub proof fn law_compaction_keeps_tail(
    items: Seq<ItemView>,
    preserve_from: int,
    user_tokens: nat,
    delegation_results: nat,
    summary: Seq<char>,
)
    requires
        0 <= preserve_from <= items.len(),
    ensures
        ({
            let out = compacted_transcript(items, preserve_from, user_tokens, delegation_results, summary);
            let tail = items.len() - preserve_from;
            &&& out.len() >= tail + 1
            &&& out.skip(out.len() - tail) == items.skip(preserve_from)
            &&& out[out.len() - tail - 1] == ItemView { kind: TranscriptKind::CompactionSummary, text: summary }
        }),
{
    let out = compacted_transcript(items, preserve_from, user_tokens, delegation_results, summary);
    let tail = items.len() - preserve_from;
    assert(out.skip(out.len() - tail) =~= items.skip(preserve_from));
}

/// Only user turns survive as kept user turns, and the newest one always does when there is
/// one.
pub proof fn law_kept_user_turns_are_user_turns(items: Seq<ItemView>, remaining: nat, started: bool)
    ensures
        forall|i: int|
            0 <= i < pick_user_turns(items, remaining, started).len() ==> (#[trigger] pick_user_turns(
                items,
                remaining,
                started,
            )[i]).kind == TranscriptKind::UserTurn,
        !started && (exists|i: int| 0 <= i < items.len() && items[i].kind == TranscriptKind::UserTurn) ==> pick_user_turns(
            items,
            remaining,
            started,
        ).len() > 0,
    decreases items.len(),
{
    if items.len() > 0 {
        let it = items.last();
        law_kept_user_turns_are_user_turns(items.drop_last(), remaining, started);
        let t = tokens(it.text);
        if it.kind == TranscriptKind::UserTurn && !(t > remaining && started) {
            let r2: nat = if t > remaining {
                0
            } else {
                (remaining - t) as nat
            };
            law_kept_user_turns_are_user_turns(items.drop_last(), r2, true);
        }
        if !started && it.kind != TranscriptKind::UserTurn {
            if exists|i: int| 0 <= i < items.len() && items[i].kind == TranscriptKind::UserTurn {
                let i = choose|i: int| 0 <= i < items.len() && items[i].kind == TranscriptKind::UserTurn;
                assert(i < items.len() - 1);
                assert(items.drop_last()[i].kind == TranscriptKind::UserTurn);
            }
        }
    }
}

/// A compaction to run: the transcript, where it is archived, and how much to keep.
#[derive(Debug, Clone)]
pub struct CompactionRequest {
    pub model: String,
    pub transcript: Vec<TranscriptItem>,
    pub transcript_dir: String,
    pub summary_max_input_chars: usize,
    pub summary_max_output_tokens: u32,
    pub preserve_recent_user_tokens: usize,
    pub preserve_recent_delegation_results: usize,
    pub mode: CompactionMode,
}

/// The result of a compaction: the new transcript and what it kept.
#[derive(Debug, Clone)]
pub struct CompactionOutcome {
    pub mode: CompactionExecutionMode,
    pub transcript_path: String,
    pub transcript: Vec<TranscriptItem>,
    pub summary: String,
    pub replaced_items: usize,
    pub preserved_items: usize,
    pub preserved_user_turns: usize,
    pub preserved_delegation_results: usize,
}

/// Where a compaction may run, given the mode and whether the provider compacts history.
#[derive(Debug, Clone, Copy, PartialEq, Eq, Structural)]
pub enum CompactionRoute {
    Local,
    RemoteWithLocalFallback,
    Remote,
    Unsupported,
}

pub open spec fn spec_route(mode: CompactionMode, supports_remote: bool) -> CompactionRoute {
    match mode {
        CompactionMode::LocalOnly => CompactionRoute::Local,
        CompactionMode::PreferRemote => if supports_remote {
            CompactionRoute::RemoteWithLocalFallback
        } else {
            CompactionRoute::Local
        },
        CompactionMode::RemoteOnly => if supports_remote {
            CompactionRoute::Remote
        } else {
            CompactionRoute::Unsupported
        },
    }
}

/// Where a compaction runs. A local-only compaction is summarized locally whatever the
/// provider supports. A remote route is taken only when the mode asks for one (prefer remote
/// or remote only) and the provider can compact remotely; preferring remote falls back to
/// local exactly when it cannot; only a remote-only compaction on such a provider is
/// unsupported; and a remote-only compaction never runs locally.
pub proof fn law_route(mode: CompactionMode, supports_remote: bool)
    ensures
        mode == CompactionMode::LocalOnly ==> spec_route(mode, supports_remote) == CompactionRoute::Local,
        (spec_route(mode, supports_remote) == CompactionRoute::Remote || spec_route(mode, supports_remote)
            == CompactionRoute::RemoteWithLocalFallback) ==> supports_remote && (mode == CompactionMode::PreferRemote
            || mode == CompactionMode::RemoteOnly),
        mode == CompactionMode::PreferRemote ==> (spec_route(mode, supports_remote) == CompactionRoute::Local
            <==> !supports_remote),
        (spec_route(mode, supports_remote) == CompactionRoute::Unsupported) <==> (mode == CompactionMode::RemoteOnly
            && !supports_remote),
        mode == CompactionMode::RemoteOnly ==> spec_route(mode, supports_remote) != CompactionRoute::Local,
{
}

/// The transcript after compaction: the kept user turns, the kept delegation results not
/// already among them, the summary, then the tail from `preserve_from` on.
pub open spec fn compacted_transcript(
    items: Seq<ItemView>,
    preserve_from: int,
    user_tokens: nat,
    delegation_results: nat,
    summary: Seq<char>,
) -> Seq<ItemView> {
    let prefix = items.take(preserve_from);
    let users = pick_user_turns(prefix, user_tokens, false);
    let dels = last_n(prefix.filter(delegation_pred()), delegation_results);
    dedup_append(users, dels).push(ItemView { kind: TranscriptKind::CompactionSummary, text: summary }) + items.skip(
        preserve_from,
    )
}

fn contains_item(v: &Vec<TranscriptItem>, x: &TranscriptItem) -> (r: bool)
    ensures
        r == item_views(v@).contains(x@),
{
    let mut i: usize = 0;
    while i < v.len()
        invariant
            i <= v@.len(),
            forall|k: int| 0 <= k < i ==> item_views(v@)[k] != x@,
        decreases v.len() - i,
    {
        if v[i].same_as(x) {
            assert(item_views(v@)[i as int] == x@);
            return true;
        }
        i += 1;
    }
    false
}

/// The compaction engine: it decides what a compaction keeps; the summary comes from a
/// model or from the provider.
#[derive(Debug, Default)]
pub struct StandardCompactionEngine;

impl StandardCompactionEngine {
    /// Where the kept tail starts, when something precedes it to compact.
    pub fn window(&self, request: &CompactionRequest) -> (r: Option<usize>)
        ensures
            tail_start(item_views(request.transcript@)) == 0 ==> r is None,
            tail_start(item_views(request.transcript@)) > 0 ==> r == Some(
                tail_start(item_views(request.transcript@)) as usize,
            ),
    {
        let preserve_from = required_tail_start_for_continuation(&request.transcript);
        if preserve_from == 0 {
            None
        } else {
            Some(preserve_from)
        }
    }

    /// Where the compaction may run.
    pub fn route(&self, mode: CompactionMode, supports_remote: bool) -> (r: CompactionRoute)
        ensures
            r == spec_route(mode, supports_remote),
            mode == CompactionMode::LocalOnly ==> r == CompactionRoute::Local,
            (r == CompactionRoute::Remote || r == CompactionRoute::RemoteWithLocalFallback) ==> supports_remote && (
            mode == CompactionMode::PreferRemote || mode == CompactionMode::RemoteOnly),
    {
        match mode {
            CompactionMode::LocalOnly => CompactionRoute::Local,
            CompactionMode::PreferRemote => if supports_remote {
                CompactionRoute::RemoteWithLocalFallback
            } else {
                CompactionRoute::Local
            },
            CompactionMode::RemoteOnly => if supports_remote {
                CompactionRoute::Remote
            } else {
                CompactionRoute::Unsupported
            },
        }
    }

    /// The outcome of compacting everything before `preserve_from` into `summary`.
    pub fn assemble(
        &self,
        request: &CompactionRequest,
        preserve_from: usize,
        mode: CompactionExecutionMode,
        summary: String,
        transcript_path: String,
    ) -> (r: CompactionOutcome)
        requires
            0 < preserve_from <= request.transcript@.len(),
        ensures
            ({
                let items = item_views(request.transcript@);
                let prefix = items.take(preserve_from as int);
                &&& item_views(r.transcript@) == compacted_transcript(
                    items,
                    preserve_from as int,
                    request.preserve_recent_user_tokens as nat,
                    request.preserve_recent_delegation_results as nat,
                    summary@,
                )
                &&& r.mode == mode
                &&& r.summary@ == summary@
                &&& r.transcript_path@ == transcript_path@
                &&& r.replaced_items == preserve_from
                &&& r.preserved_items == items.len() - preserve_from
                &&& r.preserved_user_turns == pick_user_turns(
                    prefix,
                    request.preserve_recent_user_tokens as nat,
                    false,
                ).len()
                &&& r.preserved_delegation_results == last_n(
                    prefix.filter(delegation_pred()),
                    request.preserve_recent_delegation_results as nat,
                ).len()
            }),
    {
        let ghost items = item_views(request.transcript@);
        let mut prefix: Vec<TranscriptItem> = Vec::new();
        let mut i: usize = 0;
        while i < preserve_from
            invariant
                i <= preserve_from <= request.transcript@.len(),
                items == item_views(request.transcript@),
                item_views(prefix@) == items.take(i as int),
            decreases preserve_from - i,
        {
            let ghost before = prefix@;
            let d = request.transcript[i].duplicate();
            prefix.push(d);
            assert(prefix@ =~= before.push(d));
            assert(item_views(prefix@) =~= item_views(before).push(d@));
            assert(item_views(prefix@) =~= items.take(i as int + 1));
            i += 1;
        }
        let users = select_recent_user_turns(&prefix, request.preserve_recent_user_tokens);
        let delegations = select_recent_delegation_results(&prefix, request.preserve_recent_delegation_results);
        let mut replacement: Vec<TranscriptItem> = Vec::new();
        let mut k: usize = 0;
        while k < users.len()
            invariant
                k <= users@.len(),
                item_views(replacement@) == item_views(users@).take(k as int),
            decreases users.len() - k,
        {
            let ghost before = replacement@;
            let d = users[k].duplicate();
            replacement.push(d);
            assert(replacement@ =~= before.push(d));
            assert(item_views(replacement@) =~= item_views(before).push(d@));
            assert(item_views(replacement@) =~= item_views(users@).take(k as int + 1));
            k += 1;
        }
        assert(item_views(users@).take(users@.len() as int) =~= item_views(users@));
        let mut k: usize = 0;
        while k < delegations.len()
            invariant
                k <= delegations@.len(),
                item_views(replacement@) == dedup_append(item_views(users@), item_views(delegations@).take(k as int)),
            decreases delegations.len() - k,
        {
            let ghost before = replacement@;
            assert(item_views(delegations@).take(k as int + 1).drop_last() =~= item_views(delegations@).take(k as int));
            if !contains_item(&replacement, &delegations[k]) {
                let d = delegations[k].duplicate();
                replacement.push(d);
                assert(replacement@ =~= before.push(d));
                assert(item_views(replacement@) =~= item_views(before).push(d@));
            }
            k += 1;
        }
        assert(item_views(delegations@).take(delegations@.len() as int) =~= item_views(delegations@));
        let ghost kept = item_views(replacement@);
        let kept_user_turns = users.len();
        let kept_delegations = delegations.len();
        let summary_item = TranscriptItem { kind: TranscriptKind::CompactionSummary, text: summary.clone() };
        let ghost before_summary = replacement@;
        replacement.push(summary_item);
        assert(replacement@ =~= before_summary.push(summary_item));
        let mut j = preserve_from;
        let n = request.transcript.len();
        while j < n
            invariant
                preserve_from <= j <= n,
                n == request.transcript@.len(),
                items == item_views(request.transcript@),
                item_views(replacement@) == kept.push(ItemView { kind: TranscriptKind::CompactionSummary, text: summary@ })
                    + items.subrange(preserve_from as int, j as int),
            decreases n - j,
        {
            let ghost before = replacement@;
            let d = request.transcript[j].duplicate();
            replacement.push(d);
            assert(replacement@ =~= before.push(d));
            assert(item_views(replacement@) =~= item_views(before).push(d@));
            assert(items.subrange(preserve_from as int, j as int + 1) =~= items.subrange(preserve_from as int, j as int).push(
                items[j as int],
            ));
            j += 1;
        }
        assert(items.subrange(preserve_from as int, n as int) =~= items.skip(preserve_from as int));
        CompactionOutcome {
            mode,
            transcript_path,
            transcript: replacement,
            summary,
            replaced_items: preserve_from,
            preserved_items: n - preserve_from,
            preserved_user_turns: kept_user_turns,
            preserved_delegation_results: kept_delegations,
        }
    }
}

/// What a provider's remote compaction gave.
#[derive(Debug, Clone, PartialEq, Eq)]
pub enum RemoteOutcome {
    /// A summary of the compacted history.
    Summary(String),
    /// No summary in the provider's answer.
    NoSummary,
    /// The provider does not compact history; the capability it lacks.
    Unsupported(String),
    /// Any other failure, described.
    Failed(String),
}

/// Why a compaction failed.
#[derive(Debug, Clone, PartialEq, Eq)]
pub enum CompactionFailure {
    /// The provider lacks this capability.
    Unsupported(String),
    /// The provider failed, as described.
    Failed(String),
}

/// What a compaction does next, once the provider answered a remote compaction.
#[derive(Debug, Clone, PartialEq, Eq)]
pub enum CompactionStep {
    UseRemote(String),
    SummarizeLocally,
    Fail(CompactionFailure),
}

pub const HISTORY_COMPACTION: &'static str = "history_compaction";

/// The next step after a remote compaction on `route`: a remote summary is used; when the
/// provider gave none or does not compact, a preferred-remote compaction falls back to a
/// local summary while a remote-only one fails as unsupported; other failures end the
/// compaction.
pub fn after_remote(route: CompactionRoute, outcome: RemoteOutcome) -> (r: CompactionStep)
    requires
        route == CompactionRoute::RemoteWithLocalFallback || route == CompactionRoute::Remote,
    ensures
        match outcome {
            RemoteOutcome::Summary(s) => r == CompactionStep::UseRemote(s),
            RemoteOutcome::Failed(e) => r == CompactionStep::Fail(CompactionFailure::Failed(e)),
            RemoteOutcome::NoSummary => if route == CompactionRoute::RemoteWithLocalFallback {
                r == CompactionStep::SummarizeLocally
            } else {
                r matches CompactionStep::Fail(CompactionFailure::Unsupported(c)) && c@ == HISTORY_COMPACTION@
            },
            RemoteOutcome::Unsupported(c) => if route == CompactionRoute::RemoteWithLocalFallback {
                r == CompactionStep::SummarizeLocally
            } else {
                r == CompactionStep::Fail(CompactionFailure::Unsupported(c))
            },
        },
{
    let fallback = match route {
        CompactionRoute::RemoteWithLocalFallback => true,
        _ => false,
    };
    match outcome {
        RemoteOutcome::Summary(s) => CompactionStep::UseRemote(s),
        RemoteOutcome::Failed(e) => CompactionStep::Fail(CompactionFailure::Failed(e)),
        RemoteOutcome::NoSummary => if fallback {
            CompactionStep::SummarizeLocally
        } else {
            CompactionStep::Fail(CompactionFailure::Unsupported(HISTORY_COMPACTION.to_owned()))
        },
        RemoteOutcome::Unsupported(c) => if fallback {
            CompactionStep::SummarizeLocally
        } else {
            CompactionStep::Fail(CompactionFailure::Unsupported(c))
        },
    }
}

/// The summary text of a model's answer: its text blocks joined by line breaks, trimmed.
pub fn summary_text(text_blocks: &Vec<String>) -> (r: String)
    ensures
        r@ == trimmed(joined_with(string_views(text_blocks@), "\n"@)),
{
    let joined = join_texts(text_blocks, "\n");
    trim_text(joined.as_str())
}

} // verus!
