//! The registry's general laws, stated over the same mathematical view that
//! every operation's contract uses, and proved once and for all.

use vstd::prelude::*;

use crate::registry::SessionView;

verus! {

/// Creating a session and immediately resizing it to the very same geometry
/// is a no-op in effect: the directory a successful create leaves behind is
/// exactly the one a successful resize with the same parameters leaves
/// behind. `m` is the directory before the create; a create's effect is the
/// first insert, the resize's effect is the second (it keeps the delivered
/// text).
pub proof fn lemma_resize_after_create_is_noop(
    m: Map<Seq<char>, SessionView>,
    id: Seq<char>,
    rows: u16,
    cols: u16,
)
    ensures
        ({
            let created = m.insert(id, SessionView { rows, cols, sent: Seq::empty() });
            created.insert(id, SessionView { rows, cols, sent: created[id].sent }) == created
        }),
{
    let created = m.insert(id, SessionView { rows, cols, sent: Seq::empty() });
    assert(created.insert(id, SessionView { rows, cols, sent: created[id].sent }) =~= created);
}

/// Closing is idempotent: closing twice in a row leaves the directory as one
/// close does, and closing an id with no session leaves it untouched.
pub proof fn lemma_close_idempotent(m: Map<Seq<char>, SessionView>, id: Seq<char>)
    ensures
        m.remove(id).remove(id) == m.remove(id),
        !m.dom().contains(id) ==> m.remove(id) == m,
{
    assert(m.remove(id).remove(id) =~= m.remove(id));
    if !m.dom().contains(id) {
        assert(m.remove(id) =~= m);
    }
}

/// After a close the id is unobservable, not merely inactive: it is absent
/// from the directory, so by the operations' contracts a read yields the
/// empty result and a write or resize is a successful no-op.
pub proof fn lemma_closed_session_unobservable(m: Map<Seq<char>, SessionView>, id: Seq<char>)
    ensures
        !m.remove(id).dom().contains(id),
{
}

/// Sessions are isolated from one another: whatever a create, write or
/// resize does to the session under `id`, and whatever a close removes
/// there, the session under any other id is untouched — in particular no
/// other session's delivered text changes, so no session receives another's
/// bytes.
pub proof fn lemma_session_isolation(
    m: Map<Seq<char>, SessionView>,
    id: Seq<char>,
    v: SessionView,
    other: Seq<char>,
)
    requires
        other != id,
    ensures
        m.insert(id, v).dom().contains(other) == m.dom().contains(other),
        m.dom().contains(other) ==> m.insert(id, v)[other] == m[other],
        m.remove(id).dom().contains(other) == m.dom().contains(other),
        m.dom().contains(other) ==> m.remove(id)[other] == m[other],
{
}

/// Writes on distinct ids succeed or fail independently of their order and
/// deliver to each session exactly its own bytes. The two inserts below are
/// the effects `write_to_pty`'s contract states for two successful writes
/// (the first write leaves the other session untouched, so the second
/// write's payload lands on an unchanged image): they commute, and each
/// session's delivered text grows by its own payload alone.
pub proof fn lemma_concurrent_writes_are_isolated(
    m: Map<Seq<char>, SessionView>,
    id1: Seq<char>,
    d1: Seq<char>,
    id2: Seq<char>,
    d2: Seq<char>,
)
    requires
        id1 != id2,
        m.dom().contains(id1),
        m.dom().contains(id2),
    ensures
        ({
            let v1 = SessionView { rows: m[id1].rows, cols: m[id1].cols, sent: m[id1].sent + d1 };
            let v2 = SessionView { rows: m[id2].rows, cols: m[id2].cols, sent: m[id2].sent + d2 };
            &&& m.insert(id1, v1).insert(id2, v2) == m.insert(id2, v2).insert(id1, v1)
            &&& m.insert(id1, v1).insert(id2, v2)[id1].sent == m[id1].sent + d1
            &&& m.insert(id1, v1).insert(id2, v2)[id2].sent == m[id2].sent + d2
        }),
{
    let v1 = SessionView { rows: m[id1].rows, cols: m[id1].cols, sent: m[id1].sent + d1 };
    let v2 = SessionView { rows: m[id2].rows, cols: m[id2].cols, sent: m[id2].sent + d2 };
    assert(m.insert(id1, v1).insert(id2, v2) =~= m.insert(id2, v2).insert(id1, v1));
}

/// The effect a successful `write_to_pty` of payload `d` on the live id `id`
/// has on the directory, exactly as that operation's contract states it.
pub open spec fn write_effect(
    m: Map<Seq<char>, SessionView>,
    id: Seq<char>,
    d: Seq<char>,
) -> Map<Seq<char>, SessionView> {
    m.insert(id, SessionView { rows: m[id].rows, cols: m[id].cols, sent: m[id].sent + d })
}

/// The combined effect of successful writes of the payloads `ds` on the ids
/// `ids`, applied in order.
pub open spec fn write_effects(
    m: Map<Seq<char>, SessionView>,
    ids: Seq<Seq<char>>,
    ds: Seq<Seq<char>>,
) -> Map<Seq<char>, SessionView>
    decreases ids.len(),
{
    if ids.len() == 0 || ids.len() != ds.len() {
        m
    } else {
        write_effects(write_effect(m, ids[0], ds[0]), ids.drop_first(), ds.drop_first())
    }
}

/// Writes never touch a session they are not addressed to: a sequence of
/// writes on ids other than `other` leaves the session under `other` — its
/// presence, geometry and delivered text — exactly as it was.
pub proof fn lemma_writes_leave_other_sessions(
    m: Map<Seq<char>, SessionView>,
    ids: Seq<Seq<char>>,
    ds: Seq<Seq<char>>,
    other: Seq<char>,
)
    requires
        ids.len() == ds.len(),
        !ids.contains(other),
    ensures
        write_effects(m, ids, ds).dom().contains(other) == m.dom().contains(other),
        m.dom().contains(other) ==> write_effects(m, ids, ds)[other] == m[other],
    decreases ids.len(),
{
    if ids.len() > 0 {
        assert(ids[0] != other);
        let m1 = write_effect(m, ids[0], ds[0]);
        assert(!ids.drop_first().contains(other)) by {
            if ids.drop_first().contains(other) {
                let j = choose|j: int| 0 <= j < ids.drop_first().len() && ids.drop_first()[j]
                    == other;
                assert(ids[j + 1] == other);
            }
        }
        lemma_writes_leave_other_sessions(m1, ids.drop_first(), ds.drop_first(), other);
    }
}

/// Any number of writes on distinct live ids deliver to each session exactly
/// its own bytes: after all of them, the session under `ids[k]` has its
/// delivered text grown by `ds[k]` alone, with its geometry untouched — no
/// session receives another's bytes, however many writes are in flight.
pub proof fn lemma_writes_deliver_own_bytes(
    m: Map<Seq<char>, SessionView>,
    ids: Seq<Seq<char>>,
    ds: Seq<Seq<char>>,
    k: int,
)
    requires
        ids.len() == ds.len(),
        ids.no_duplicates(),
        0 <= k < ids.len(),
        m.dom().contains(ids[k]),
    ensures
        write_effects(m, ids, ds).dom().contains(ids[k]),
        write_effects(m, ids, ds)[ids[k]].sent == m[ids[k]].sent + ds[k],
        write_effects(m, ids, ds)[ids[k]].rows == m[ids[k]].rows,
        write_effects(m, ids, ds)[ids[k]].cols == m[ids[k]].cols,
    decreases ids.len(),
{
    let m1 = write_effect(m, ids[0], ds[0]);
    if k == 0 {
        assert(!ids.drop_first().contains(ids[0])) by {
            if ids.drop_first().contains(ids[0]) {
                let j = choose|j: int| 0 <= j < ids.drop_first().len() && ids.drop_first()[j]
                    == ids[0];
                assert(ids[j + 1] == ids[0]);
            }
        }
        lemma_writes_leave_other_sessions(m1, ids.drop_first(), ds.drop_first(), ids[0]);
    } else {
        assert(ids[0] != ids[k]);
        assert(m1.dom().contains(ids[k]) && m1[ids[k]] == m[ids[k]]);
        assert(ids.drop_first()[k - 1] == ids[k]);
        assert(ids.drop_first().no_duplicates()) by {
            assert forall|i: int, j: int|
                0 <= i < ids.drop_first().len() && 0 <= j < ids.drop_first().len() && i
                    != j implies ids.drop_first()[i] != ids.drop_first()[j] by {
                assert(ids.drop_first()[i] == ids[i + 1]);
                assert(ids.drop_first()[j] == ids[j + 1]);
            }
        }
        lemma_writes_deliver_own_bytes(m1, ids.drop_first(), ds.drop_first(), k - 1);
    }
}

} // verus!
