use vstd::prelude::*;

verus! {

/// The number of distinct 128-bit identifiers.
pub open spec fn id_space() -> int {
    u128::MAX + 1
}

/// The `k`-th identifier tried after `id` when `id` is taken: `id + k`,
/// wrapping around the 128-bit space.
pub open spec fn probe(id: u128, k: int) -> u128 {
    if id + k < id_space() {
        (id + k) as u128
    } else {
        (id + k - id_space()) as u128
    }
}

/// Relies on uuid::Uuid::now_v7 and Uuid::as_u128: a version 7 UUID (the
/// version number sits in bits 76 to 79), built from the current time and
/// random bits, as its 128-bit big-endian value.
#[verifier::external_body]
pub(crate) fn draw_id() -> (r: u128)
    ensures
        (r >> 76u128) & 0xfu128 == 7,
{
    uuid::Uuid::now_v7().as_u128()
}

/// Among `n + 1` consecutive probes from `id`, at least one is not among
/// `n` identifiers.
pub proof fn lemma_probe_escapes(taken: Seq<u128>, id: u128)
    requires
        taken.len() < id_space(),
    ensures
        exists|k: int| 0 <= k <= taken.len() && !taken.contains(#[trigger] probe(id, k)),
{
    let n = taken.len() as int;
    let c = Seq::new((n + 1) as nat, |k: int| probe(id, k));
    if forall|k: int| 0 <= k <= n ==> taken.contains(#[trigger] probe(id, k)) {
        assert(c.no_duplicates()) by {
            assert forall|i: int, j: int| 0 <= i < c.len() && 0 <= j < c.len() && i != j implies c[i]
                != c[j] by {
                assert(c[i] == probe(id, i));
                assert(c[j] == probe(id, j));
            }
        }
        c.unique_seq_to_set();
        vstd::seq_lib::seq_to_set_is_finite(taken);
        taken.lemma_cardinality_of_set();
        assert(c.to_set().subset_of(taken.to_set())) by {
            assert forall|x: u128| c.to_set().contains(x) implies taken.to_set().contains(x) by {
                let i = choose|i: int| 0 <= i < c.len() && c[i] == x;
                assert(taken.contains(probe(id, i)));
            }
        }
        vstd::set_lib::lemma_len_subset(c.to_set(), taken.to_set());
        assert(false);
    }
}

} // verus!
