//! Context assembly: turns ranked search results into one prompt that cites
//! the retrieved chunks and ends with the user's query.
use vstd::prelude::*;
use vstd::string::*;

verus! {

/// How many results a query asks the index for.
pub const SAMPLES: usize = 30;

/// Distances are given in billionths; a result at or beyond this distance
/// (0.9) is not relevant enough to be cited.
pub const RELEVANCE_CUTOFF: i64 = 900_000_000;

/// The most characters of retrieved text one prompt may carry.
pub const MAX_CONTEXT_LEN: usize = 30000;

/// Placed between two cited chunks.
pub const SEPARATOR: &'static str = "\n\n---\n\n";

/// Opens the context block.
pub const CONTEXT_INTRO: &'static str = "You have access to the following relevant documentation: \n\n";

/// Closes the context block and introduces the user's query.
pub const QUERY_INTRO: &'static str = "\n\n --- \n\nUser: ";

/// Labels of a cited chunk.
pub const SOURCE_LABEL: &'static str = "Source: ";
pub const CONTENT_LABEL: &'static str = "\nContent: ";

/// One ranked search result: its distance from the query in billionths
/// (lower is closer), and the chunk it found.
pub struct SearchHit {
    pub distance: i64,
    pub source_name: String,
    pub content: String,
}

/// Greedy admission in ranked order: results at or beyond the cutoff are
/// passed over; a relevant result that does not fit in the room left ends
/// admission.
pub open spec fn admitted(hits: Seq<SearchHit>, cutoff: int, room: int) -> Seq<SearchHit>
    decreases hits.len(),
{
    if hits.len() == 0 {
        Seq::empty()
    } else if hits[0].distance >= cutoff {
        admitted(hits.drop_first(), cutoff, room)
    } else if hits[0].content@.len() > room {
        Seq::empty()
    } else {
        seq![hits[0]] + admitted(hits.drop_first(), cutoff, room - hits[0].content@.len())
    }
}

/// The results below the cutoff, in order.
pub open spec fn relevant(hits: Seq<SearchHit>, cutoff: int) -> Seq<SearchHit>
    decreases hits.len(),
{
    if hits.len() == 0 {
        Seq::empty()
    } else if hits[0].distance < cutoff {
        seq![hits[0]] + relevant(hits.drop_first(), cutoff)
    } else {
        relevant(hits.drop_first(), cutoff)
    }
}

/// Total characters of content.
pub open spec fn total_len(hits: Seq<SearchHit>) -> int
    decreases hits.len(),
{
    if hits.len() == 0 {
        0
    } else {
        hits[0].content@.len() + total_len(hits.drop_first())
    }
}

/// How a cited chunk reads in the prompt.
pub open spec fn entry_text(h: SearchHit) -> Seq<char> {
    SOURCE_LABEL@ + h.source_name@ + CONTENT_LABEL@ + h.content@
}

/// The cited chunks joined by the separator.
pub open spec fn joined(entries: Seq<SearchHit>) -> Seq<char>
    decreases entries.len(),
{
    if entries.len() == 0 {
        Seq::empty()
    } else if entries.len() == 1 {
        entry_text(entries[0])
    } else {
        joined(entries.drop_last()) + SEPARATOR@ + entry_text(entries.last())
    }
}

/// The prompt for `query`: unchanged when the search found nothing, else the
/// admitted chunks wrapped in the context block, then the query.
pub open spec fn augmented(query: Seq<char>, hits: Seq<SearchHit>, cutoff: int, budget: int) -> Seq<char> {
    if hits.len() == 0 {
        query
    } else {
        CONTEXT_INTRO@ + joined(admitted(hits, cutoff, budget)) + QUERY_INTRO@ + query
    }
}

/// How many ranked results admission looks at before it ends.
pub open spec fn admission_end(hits: Seq<SearchHit>, cutoff: int, room: int) -> int
    decreases hits.len(),
{
    if hits.len() == 0 {
        0
    } else if hits[0].distance >= cutoff {
        1 + admission_end(hits.drop_first(), cutoff, room)
    } else if hits[0].content@.len() > room {
        0
    } else {
        1 + admission_end(hits.drop_first(), cutoff, room - hits[0].content@.len())
    }
}

/// The cited chunks never hold more than the budget in characters.
pub proof fn admitted_within_budget(hits: Seq<SearchHit>, cutoff: int, budget: int)
    requires
        budget >= 0,
    ensures
        total_len(admitted(hits, cutoff, budget)) <= budget,
    decreases hits.len(),
{
    if hits.len() > 0 {
        let rest = hits.drop_first();
        if hits[0].distance >= cutoff {
            admitted_within_budget(rest, cutoff, budget);
        } else if hits[0].content@.len() <= budget {
            let room = budget - hits[0].content@.len();
            admitted_within_budget(rest, cutoff, room);
            let a = seq![hits[0]] + admitted(rest, cutoff, room);
            assert(a.drop_first() =~= admitted(rest, cutoff, room));
        }
    }
}

/// Only results strictly closer than the cutoff are cited: one exactly at
/// the cutoff is left out.
pub proof fn admitted_are_below_cutoff(hits: Seq<SearchHit>, cutoff: int, room: int)
    ensures
        forall|i: int|
            0 <= i < admitted(hits, cutoff, room).len() ==> (#[trigger] admitted(hits, cutoff, room)[i]).distance
                < cutoff,
    decreases hits.len(),
{
    if hits.len() > 0 {
        let rest = hits.drop_first();
        if hits[0].distance >= cutoff {
            admitted_are_below_cutoff(rest, cutoff, room);
            assert(admitted(hits, cutoff, room) == admitted(rest, cutoff, room));
        } else if hits[0].content@.len() <= room {
            let room2 = room - hits[0].content@.len();
            admitted_are_below_cutoff(rest, cutoff, room2);
            let a = seq![hits[0]] + admitted(rest, cutoff, room2);
            assert forall|i: int| 0 <= i < a.len() implies (#[trigger] a[i]).distance < cutoff by {
                if i > 0 {
                    assert(a[i] == admitted(rest, cutoff, room2)[i - 1]);
                }
            }
            assert(admitted(hits, cutoff, room) == a);
        }
    }
}

/// Admission takes results in ranked order and never skips ahead: what is
/// cited is exactly the relevant results among the first `k`, and when `k`
/// falls short of the whole list, result `k` is relevant and would have
/// overflowed the budget.
pub proof fn admission_is_greedy_prefix(hits: Seq<SearchHit>, cutoff: int, budget: int)
    ensures
        0 <= admission_end(hits, cutoff, budget) <= hits.len(),
        admitted(hits, cutoff, budget) == relevant(
            hits.take(admission_end(hits, cutoff, budget)),
            cutoff,
        ),
        admission_end(hits, cutoff, budget) < hits.len() ==> {
            let k = admission_end(hits, cutoff, budget);
            &&& hits[k].distance < cutoff
            &&& total_len(admitted(hits, cutoff, budget)) + hits[k].content@.len() > budget
        },
    decreases hits.len(),
{
    let k = admission_end(hits, cutoff, budget);
    if hits.len() == 0 {
        assert(hits.take(0) =~= Seq::<SearchHit>::empty());
    } else {
        let rest = hits.drop_first();
        let h = hits[0];
        if h.distance >= cutoff {
            admission_is_greedy_prefix(rest, cutoff, budget);
            let t = hits.take(k);
            assert(t.drop_first() =~= rest.take(k - 1));
        } else if h.content@.len() > budget {
            assert(hits.take(0) =~= Seq::<SearchHit>::empty());
        } else {
            let room = budget - h.content@.len();
            admission_is_greedy_prefix(rest, cutoff, room);
            let t = hits.take(k);
            assert(t.drop_first() =~= rest.take(k - 1));
            let a = seq![h] + admitted(rest, cutoff, room);
            assert(a.drop_first() =~= admitted(rest, cutoff, room));
            if k < hits.len() {
                assert(hits[k] == rest[k - 1]);
            }
        }
    }
}

fn entry(h: &SearchHit) -> (r: String)
    ensures
        r@ == entry_text(*h),
{
    let mut r = String::from_str(SOURCE_LABEL);
    r.append(h.source_name.as_str());
    r.append(CONTENT_LABEL);
    r.append(h.content.as_str());
    r
}

/// Builds the prompt for `query` from ranked results, citing those below
/// `cutoff` in order while their content fits in `budget` characters.
pub fn assemble_context(query: &str, hits: &Vec<SearchHit>, cutoff: i64, budget: usize) -> (r: String)
    ensures
        r@ == augmented(query@, hits@, cutoff as int, budget as int),
        hits@.len() == 0 ==> r@ == query@,
{
    if hits.len() == 0 {
        return String::from_str(query);
    }
    let n = hits.len();
    let mut context = String::new();
    let mut used: usize = 0;
    let mut any: bool = false;
    let ghost mut acc: Seq<SearchHit> = Seq::empty();
    let mut i: usize = 0;
    assert(hits@.subrange(0, n as int) =~= hits@);
    assert(acc + admitted(hits@, cutoff as int, budget as int) =~= admitted(hits@, cutoff as int, budget as int));
    while i < n
        invariant
            n == hits@.len(),
            i <= n,
            used <= budget,
            any == (acc.len() > 0),
            context@ == joined(acc),
            admitted(hits@, cutoff as int, budget as int) == acc + admitted(
                hits@.subrange(i as int, n as int),
                cutoff as int,
                budget - used,
            ),
        decreases n - i,
    {
        let h = &hits[i];
        let ghost rest = hits@.subrange(i as int, n as int);
        assert(rest[0] == hits@[i as int]);
        assert(rest.drop_first() =~= hits@.subrange(i + 1, n as int));
        if h.distance >= cutoff {
            i = i + 1;
        } else {
            let len = h.content.as_str().unicode_len();
            if len > budget - used {
                assert(admitted(hits@.subrange(n as int, n as int), cutoff as int, budget - used) =~= Seq::empty());
                assert(acc + Seq::<SearchHit>::empty() =~= acc);
                i = n;
            } else {
                let e = entry(h);
                if any {
                    context.append(SEPARATOR);
                }
                context.append(e.as_str());
                proof {
                    let next = acc.push(*h);
                    assert(next.drop_last() =~= acc);
                    assert(acc + (seq![*h] + admitted(hits@.subrange(i + 1, n as int), cutoff as int, budget - used - len))
                        =~= next + admitted(hits@.subrange(i + 1, n as int), cutoff as int, budget - used - len));
                    acc = next;
                }
                used = used + len;
                any = true;
                i = i + 1;
            }
        }
    }
    assert(admitted(hits@.subrange(n as int, n as int), cutoff as int, budget - used) =~= Seq::empty());
    assert(acc + Seq::<SearchHit>::empty() =~= acc);
    let mut r = String::from_str(CONTEXT_INTRO);
    r.append(context.as_str());
    r.append(QUERY_INTRO);
    r.append(query);
    r
}

/// Builds the prompt for `query` with the standard cutoff and budget.
pub fn augment(query: &str, hits: &Vec<SearchHit>) -> (r: String)
    ensures
        r@ == augmented(query@, hits@, RELEVANCE_CUTOFF as int, MAX_CONTEXT_LEN as int),
        hits@.len() == 0 ==> r@ == query@,
{
    assemble_context(query, hits, RELEVANCE_CUTOFF, MAX_CONTEXT_LEN)
}

} // verus!
