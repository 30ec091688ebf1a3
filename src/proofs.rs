use vstd::prelude::*;

use crate::contract::{about, owned_by, with_id};
use crate::state::{Message, State};

verus! {

/// The records that a fresh state holds after the add-message commands
/// `cmds`, each given as (sender, topic, text), all of them successful:
/// command `j` made record `j`, whose id is `j`.
pub open spec fn records_from(cmds: Seq<(String, String, String)>) -> Seq<Message> {
    Seq::new(
        cmds.len(),
        |j: int| Message { id: j as u128, owner: cmds[j].0, topic: cmds[j].1, message: cmds[j].2 },
    )
}

/// `runs` are the states that a fresh state passes through while the
/// commands `cmds` succeed one after another.
pub open spec fn successful_run(runs: Seq<State>, cmds: Seq<(String, String, String)>) -> bool {
    &&& runs.len() == cmds.len() + 1
    &&& runs[0].is_fresh()
    &&& forall|j: int|
        0 <= j < cmds.len() ==> #[trigger] State::add_step(
            runs[j],
            runs[j + 1],
            cmds[j].0,
            cmds[j].1,
            cmds[j].2,
        )
}

proof fn lemma_run_prefix(runs: Seq<State>, cmds: Seq<(String, String, String)>, n: int)
    requires
        successful_run(runs, cmds),
        0 <= n <= cmds.len(),
    ensures
        runs[n].counter() == n,
        runs[n].records() == records_from(cmds.take(n)),
    decreases n,
{
    if n > 0 {
        let k = n - 1;
        lemma_run_prefix(runs, cmds, k);
        assert(State::add_step(runs[k], runs[k + 1], cmds[k].0, cmds[k].1, cmds[k].2));
        assert(runs[n].records() =~= records_from(cmds.take(n)));
    } else {
        assert(runs[0].records() =~= records_from(cmds.take(0)));
    }
}

/// Ids follow submission order: after a series of successful add-message
/// commands on a fresh state, the records are exactly those commands in the
/// order sent, and the one made by the `j`-th command has id `j`, so the ids
/// given out are 0, 1, 2, ... with no gap and no repeat.
pub proof fn lemma_ids_follow_submission_order(
    runs: Seq<State>,
    cmds: Seq<(String, String, String)>,
)
    requires
        successful_run(runs, cmds),
    ensures
        runs.last().records() == records_from(cmds),
        forall|j: int| 0 <= j < cmds.len() ==> (#[trigger] runs.last().records()[j]).id == j,
{
    lemma_run_prefix(runs, cmds, cmds.len() as int);
    assert(cmds.take(cmds.len() as int) =~= cmds);
}

/// After `k` successful add-message commands on a fresh state, and no failed
/// one, the current id is `k`.
pub proof fn lemma_counter_counts_adds(runs: Seq<State>, cmds: Seq<(String, String, String)>)
    requires
        successful_run(runs, cmds),
    ensures
        runs.last().counter() == cmds.len(),
{
    lemma_run_prefix(runs, cmds, cmds.len() as int);
}

/// `post` follows `pre` by one add-message command, successful or refused
/// (a refused one leaves the state as it was; queries take the state by
/// shared reference and cannot change it).
pub open spec fn add_attempt(
    pre: State,
    post: State,
    owner: String,
    topic: String,
    message: String,
) -> bool {
    State::add_step(pre, post, owner, topic, message) || post == pre
}

proof fn lemma_prefix_kept(runs: Seq<State>, cmds: Seq<(String, String, String)>, i: int, j: int)
    requires
        runs.len() == cmds.len() + 1,
        forall|k: int|
            0 <= k < cmds.len() ==> #[trigger] add_attempt(
                runs[k],
                runs[k + 1],
                cmds[k].0,
                cmds[k].1,
                cmds[k].2,
            ),
        0 <= i <= j < runs.len(),
    ensures
        runs[i].records().len() <= runs[j].records().len(),
        runs[j].records().subrange(0, runs[i].records().len() as int) == runs[i].records(),
    decreases j - i,
{
    if j == i {
        assert(runs[i].records().subrange(0, runs[i].records().len() as int) =~= runs[i].records());
    } else {
        let k = j - 1;
        lemma_prefix_kept(runs, cmds, i, k);
        assert(add_attempt(runs[k], runs[k + 1], cmds[k].0, cmds[k].1, cmds[k].2));
        let n = runs[i].records().len() as int;
        assert(runs[j].records().subrange(0, n) =~= runs[j - 1].records().subrange(0, n));
    }
}

/// Records never change: along any series of add-message commands, whether
/// they succeed or are refused, every record of an earlier state stands
/// unchanged, at the same place, in every later state.
pub proof fn lemma_records_never_change(runs: Seq<State>, cmds: Seq<(String, String, String)>)
    requires
        runs.len() == cmds.len() + 1,
        forall|k: int|
            0 <= k < cmds.len() ==> #[trigger] add_attempt(
                runs[k],
                runs[k + 1],
                cmds[k].0,
                cmds[k].1,
                cmds[k].2,
            ),
    ensures
        forall|i: int, j: int|
            0 <= i <= j < runs.len() ==> (#[trigger] runs[i].records()).len() <= (
            #[trigger] runs[j].records()).len(),
        forall|i: int, j: int, r: int|
            #![trigger runs[j].records()[r], runs[i].records()[r]]
            0 <= i <= j < runs.len() && 0 <= r < runs[i].records().len() ==> runs[j].records()[r]
                == runs[i].records()[r],
{
    assert forall|i: int, j: int| 0 <= i <= j < runs.len() implies (
    #[trigger] runs[i].records()).len() <= (#[trigger] runs[j].records()).len() by {
        lemma_prefix_kept(runs, cmds, i, j);
    }
    assert forall|i: int, j: int, r: int|
        #![trigger runs[j].records()[r], runs[i].records()[r]]
        0 <= i <= j < runs.len() && 0 <= r < runs[i].records().len() implies runs[j].records()[r]
        == runs[i].records()[r] by {
        lemma_prefix_kept(runs, cmds, i, j);
        assert(runs[j].records().subrange(0, runs[i].records().len() as int)[r]
            == runs[j].records()[r]);
    }
}

/// Ids strictly increase along `s`.
pub open spec fn ascending_ids(s: Seq<Message>) -> bool {
    forall|i: int, j: int| 0 <= i < j < s.len() ==> s[i].id < s[j].id
}

proof fn lemma_ordered_selection(s: Seq<Message>, p: spec_fn(Message) -> bool)
    requires
        ascending_ids(s),
    ensures
        forall|m: Message| #[trigger] s.filter(p).contains(m) <==> s.contains(m) && p(m),
        ascending_ids(s.filter(p)),
    decreases s.len(),
{
    reveal(Seq::filter);
    if s.len() > 0 {
        let rest = s.drop_last();
        assert(ascending_ids(rest));
        lemma_ordered_selection(rest, p);
        assert forall|m: Message| s.contains(m) <==> rest.contains(m) || m == s.last() by {
            if s.contains(m) {
                let k = choose|k: int| 0 <= k < s.len() && s[k] == m;
                if k < s.len() - 1 {
                    assert(rest[k] == m);
                }
            }
            if rest.contains(m) {
                let k = choose|k: int| 0 <= k < rest.len() && rest[k] == m;
                assert(s[k] == m);
            }
            if m == s.last() {
                assert(s[s.len() - 1] == m);
            }
        }
        let f = rest.filter(p);
        if p(s.last()) {
            assert forall|k: int| 0 <= k < f.len() implies f[k].id < s.last().id by {
                assert(f.contains(f[k]));
                assert(rest.contains(f[k]));
                let q = choose|q: int| 0 <= q < rest.len() && rest[q] == f[k];
                assert(s[q] == f[k]);
            }
            assert forall|m: Message| f.push(s.last()).contains(m) <==> f.contains(m) || m
                == s.last() by {
                if f.push(s.last()).contains(m) {
                    let k = choose|k: int| 0 <= k < f.len() + 1 && f.push(s.last())[k] == m;
                    if k < f.len() {
                        assert(f[k] == m);
                    }
                }
                if f.contains(m) {
                    let k = choose|k: int| 0 <= k < f.len() && f[k] == m;
                    assert(f.push(s.last())[k] == m);
                }
                if m == s.last() {
                    assert(f.push(s.last())[f.len() as int] == m);
                }
            }
            assert(s.filter(p) == f.push(s.last()));
        } else {
            assert(s.filter(p) == f);
        }
        assert forall|m: Message| #[trigger] s.filter(p).contains(m) <==> s.contains(m) && p(m) by {
            if f.contains(m) {
                assert(rest.contains(m) && p(m));
            }
            if rest.contains(m) && p(m) {
                assert(f.contains(m));
            }
        }
    }
}

proof fn lemma_wf_ascending(state: State)
    requires
        state.wf(),
    ensures
        ascending_ids(state.records()),
{
    assert forall|i: int, j: int| 0 <= i < j < state.records().len() implies state.records()[i].id
        < state.records()[j].id by {
        assert(state.records()[i].id == i);
        assert(state.records()[j].id == j);
    }
}

/// The filtered queries select from all-messages: the records that
/// by-address, by-topic and by-id return are exactly those of all-messages
/// that match, in ascending id order as all-messages is; by-id returns the
/// one record with that id when there is one, and nothing otherwise.
pub proof fn lemma_filters_select_from_all(state: State, address: Seq<char>, topic: Seq<char>, id: u128)
    requires
        state.wf(),
    ensures
        ascending_ids(state.records()),
        forall|m: Message|
            #[trigger] state.records().filter(owned_by(address)).contains(m)
                <==> state.records().contains(m) && m.owner@ == address,
        ascending_ids(state.records().filter(owned_by(address))),
        forall|m: Message|
            #[trigger] state.records().filter(about(topic)).contains(m)
                <==> state.records().contains(m) && m.topic@ == topic,
        ascending_ids(state.records().filter(about(topic))),
        forall|m: Message|
            #[trigger] state.records().filter(with_id(id)).contains(m)
                <==> state.records().contains(m) && m.id == id,
        state.records().filter(with_id(id)) == if id < state.counter() {
            seq![state.records()[id as int]]
        } else {
            Seq::<Message>::empty()
        },
{
    let all = state.records();
    lemma_wf_ascending(state);
    lemma_ordered_selection(all, owned_by(address));
    lemma_ordered_selection(all, about(topic));
    lemma_ordered_selection(all, with_id(id));
    let f = all.filter(with_id(id));
    assert forall|k: int| 0 <= k < f.len() implies f[k] == all[id as int] && id < state.counter() by {
        assert(f.contains(f[k]));
        assert(all.contains(f[k]));
        let q = choose|q: int| 0 <= q < all.len() && all[q] == f[k];
        assert(all[q].id == q);
    }
    if id < state.counter() {
        assert(all[id as int].id == id);
        assert(all.contains(all[id as int]));
        assert(f.contains(all[id as int]));
        if f.len() > 1 {
            assert(f[0].id < f[1].id);
        }
        assert(f =~= seq![all[id as int]]);
    } else {
        if f.len() > 0 {
            assert(f[0] == all[id as int]);
        }
        assert(f =~= Seq::<Message>::empty());
    }
}

/// Filtered queries that match no record return an empty list.
pub proof fn lemma_no_match_gives_empty(state: State, address: Seq<char>, topic: Seq<char>, id: u128)
    requires
        state.wf(),
    ensures
        (forall|i: int| 0 <= i < state.records().len() ==> (#[trigger] state.records()[i]).owner@
            != address) ==> state.records().filter(owned_by(address)).len() == 0,
        (forall|i: int| 0 <= i < state.records().len() ==> (#[trigger] state.records()[i]).topic@
            != topic) ==> state.records().filter(about(topic)).len() == 0,
        (forall|i: int| 0 <= i < state.records().len() ==> (#[trigger] state.records()[i]).id
            != id) ==> state.records().filter(with_id(id)).len() == 0,
{
    let all = state.records();
    lemma_filters_select_from_all(state, address, topic, id);
    let fa = all.filter(owned_by(address));
    if fa.len() > 0 {
        assert(fa.contains(fa[0]));
    }
    let ft = all.filter(about(topic));
    if ft.len() > 0 {
        assert(ft.contains(ft[0]));
    }
    let fi = all.filter(with_id(id));
    if fi.len() > 0 {
        assert(fi.contains(fi[0]));
    }
}

} // verus!
