//! The wire form of a gnark verifying key: the four fixed elements, the IC
//! vector with its count, the Pedersen commitment keys with theirs, and for
//! each commitment the indices of the public inputs that it commits to.

use crate::bytes::{
    be_bytes, be_value, copy_array, lemma_be_bytes_len, lemma_be_bytes_value, lemma_pow256_small,
    read_be_u32, read_be_u64,
};
use crate::gnark_proof::{lemma_commitments_wire, GnarkProof};
use crate::error::GnarkError;
use vstd::prelude::*;

verus! {

/// Length of the fixed elements and the count of the IC vector.
pub const VK_PREFIX_LEN: usize = 452;

/// A gnark verifying key.
#[derive(Clone, Debug, PartialEq, Eq)]
pub struct GnarkVerifyingKey {
    /// The number of public inputs of the circuit.
    pub nr_pubinputs: usize,
    /// The element alpha, in G1.
    pub alpha_g1: [u8; 64],
    /// The element beta, in G2.
    pub beta_g2: [u8; 128],
    /// The element gamma, in G2.
    pub gamma_g2: [u8; 128],
    /// The element delta, in G2.
    pub delta_g2: [u8; 128],
    /// The IC vector: one element of G1 and one more for each public input
    /// and each commitment.
    pub ic: Vec<[u8; 64]>,
    /// The Pedersen commitment keys: the shared G2 base in the first 128
    /// bytes, the key's own G2 element in the last 128.
    pub pedersen_params: Vec<[u8; 256]>,
    /// For each commitment, the 1-based indices of the witness entries that
    /// it commits to.
    pub committed_indices: Vec<Vec<u64>>,
}

/// The number of IC elements that the bytes of a key announce.
pub open spec fn vk_ic_count(b: Seq<u8>) -> nat {
    be_value(b.subrange(448, 452))
}

/// Where the count of the commitment keys stands.
pub open spec fn vk_params_at(b: Seq<u8>) -> int {
    452 + 64 * (vk_ic_count(b) as int)
}

/// The number of commitment keys that the bytes announce.
pub open spec fn vk_params_count(b: Seq<u8>) -> nat {
    be_value(b.subrange(vk_params_at(b), vk_params_at(b) + 4))
}

/// Where the count of the index groups stands.
pub open spec fn vk_groups_at(b: Seq<u8>) -> int {
    vk_params_at(b) + 4 + 256 * (vk_params_count(b) as int)
}

/// The number of index groups that the bytes announce.
pub open spec fn vk_group_count(b: Seq<u8>) -> nat {
    be_value(b.subrange(vk_groups_at(b), vk_groups_at(b) + 4))
}

/// Where index group `g` starts: the first after the count of the groups,
/// each later one after the length and the indices of the group before.
pub open spec fn vk_group_start(b: Seq<u8>, g: nat) -> int
    decreases g,
{
    if g == 0 {
        vk_groups_at(b) + 4
    } else {
        let before = vk_group_start(b, (g - 1) as nat);
        before + 4 + 8 * (be_value(b.subrange(before, before + 4)) as int)
    }
}

/// The number of indices in group `g`.
pub open spec fn vk_group_len(b: Seq<u8>, g: nat) -> nat {
    be_value(b.subrange(vk_group_start(b, g), vk_group_start(b, g) + 4))
}

/// Whether group `g` lies within the bytes: its length and its indices.
pub open spec fn vk_group_fits(b: Seq<u8>, g: nat) -> bool {
    vk_group_start(b, g) + 4 <= b.len() && vk_group_start(b, g + 1) <= b.len()
}

/// Whether every group before group `n` lies within the bytes.
pub open spec fn vk_groups_fit(b: Seq<u8>, n: nat) -> bool {
    forall|g: nat| g < n ==> #[trigger] vk_group_fits(b, g)
}

/// Whether the bytes have the layout of a key: every count and every
/// element it announces lies within the bytes, and the last index group
/// ends where the bytes end.
pub open spec fn vk_layout_ok(b: Seq<u8>) -> bool {
    &&& b.len() >= 452
    &&& vk_params_at(b) + 4 <= b.len()
    &&& vk_groups_at(b) + 4 <= b.len()
    &&& vk_groups_fit(b, vk_group_count(b))
    &&& vk_group_start(b, vk_group_count(b)) == b.len()
}

impl GnarkVerifyingKey {
    /// Whether the key is what `b` holds, field by field.
    pub open spec fn is_parse_of(&self, b: Seq<u8>) -> bool {
        &&& self.alpha_g1@ == b.subrange(0, 64)
        &&& self.beta_g2@ == b.subrange(64, 192)
        &&& self.gamma_g2@ == b.subrange(192, 320)
        &&& self.delta_g2@ == b.subrange(320, 448)
        &&& self.ic@.len() == vk_ic_count(b)
        &&& forall|k: int|
            0 <= k < self.ic@.len() ==> (#[trigger] self.ic@[k])@ == b.subrange(
                452 + 64 * k,
                516 + 64 * k,
            )
        &&& self.pedersen_params@.len() == vk_params_count(b)
        &&& forall|k: int|
            0 <= k < self.pedersen_params@.len() ==> (#[trigger] self.pedersen_params@[k])@
                == b.subrange(vk_params_at(b) + 4 + 256 * k, vk_params_at(b) + 260 + 256 * k)
        &&& self.committed_indices@.len() == vk_group_count(b)
        &&& forall|g: int|
            0 <= g < self.committed_indices@.len() ==> group_is_parse_of(
                (#[trigger] self.committed_indices@[g])@,
                b,
                g as nat,
            )
        &&& self.nr_pubinputs + 1 + self.pedersen_params@.len() == self.ic@.len()
    }
}

/// Whether `indices` is what group `g` of `b` holds.
pub open spec fn group_is_parse_of(indices: Seq<u64>, b: Seq<u8>, g: nat) -> bool {
    &&& indices.len() == vk_group_len(b, g)
    &&& forall|j: int|
        0 <= j < indices.len() ==> (#[trigger] indices[j]) as nat == be_value(
            b.subrange(vk_group_start(b, g) + 4 + 8 * j, vk_group_start(b, g) + 12 + 8 * j),
        )
}

/// Parses a verifying key. Bytes that do not have the layout of a key are
/// refused as a serialization error; a key whose IC vector is too short for
/// its commitments, as incompatible with its number of public inputs.
pub fn parse_vk(bytes: &[u8]) -> (parsed: Result<GnarkVerifyingKey, GnarkError>)
    ensures
        parsed is Ok <==> vk_layout_ok(bytes@) && vk_ic_count(bytes@) >= 1 + vk_params_count(
            bytes@,
        ),
        parsed is Ok ==> parsed.unwrap().is_parse_of(bytes@),
        parsed is Err ==> parsed.unwrap_err() == (if vk_layout_ok(bytes@) {
            GnarkError::IncompatibleVerifyingKeyWithNrPublicInputs
        } else {
            GnarkError::ArkworksSerializationError
        }),
{
    let len: usize = bytes.len();
    if len < VK_PREFIX_LEN {
        return Err(GnarkError::ArkworksSerializationError);
    }
    let alpha_g1: [u8; 64] = copy_array(bytes, 0);
    let beta_g2: [u8; 128] = copy_array(bytes, 64);
    let gamma_g2: [u8; 128] = copy_array(bytes, 192);
    let delta_g2: [u8; 128] = copy_array(bytes, 320);

    let n_ic: usize = read_be_u32(bytes, 448) as usize;
    if (len - 452) / 64 < n_ic {
        return Err(GnarkError::ArkworksSerializationError);
    }
    let params_at: usize = 452 + 64 * n_ic;
    if len - params_at < 4 {
        return Err(GnarkError::ArkworksSerializationError);
    }
    let mut ic: Vec<[u8; 64]> = Vec::with_capacity(n_ic);
    let mut k: usize = 0;
    while k < n_ic
        invariant
            k <= n_ic,
            452 + 64 * n_ic + 4 <= bytes.len(),
            ic@.len() == k,
            forall|j: int|
                0 <= j < k ==> (#[trigger] ic@[j])@ == bytes@.subrange(452 + 64 * j, 516 + 64 * j),
        decreases n_ic - k,
    {
        let element: [u8; 64] = copy_array(bytes, 452 + 64 * k);
        ic.push(element);
        k += 1;
    }

    let n_params: usize = read_be_u32(bytes, params_at) as usize;
    let keys_from: usize = params_at + 4;
    if (len - keys_from) / 256 < n_params {
        return Err(GnarkError::ArkworksSerializationError);
    }
    let groups_at: usize = keys_from + 256 * n_params;
    if len - groups_at < 4 {
        return Err(GnarkError::ArkworksSerializationError);
    }
    let mut pedersen_params: Vec<[u8; 256]> = Vec::with_capacity(n_params);
    let mut k: usize = 0;
    while k < n_params
        invariant
            k <= n_params,
            keys_from + 256 * n_params + 4 <= bytes.len(),
            pedersen_params@.len() == k,
            forall|j: int|
                0 <= j < k ==> (#[trigger] pedersen_params@[j])@ == bytes@.subrange(
                    keys_from + 256 * j,
                    keys_from + 256 + 256 * j,
                ),
        decreases n_params - k,
    {
        let key: [u8; 256] = copy_array(bytes, keys_from + 256 * k);
        pedersen_params.push(key);
        k += 1;
    }

    let n_groups: usize = read_be_u32(bytes, groups_at) as usize;
    let mut at: usize = groups_at + 4;
    let mut committed_indices: Vec<Vec<u64>> = Vec::with_capacity(n_groups);
    let mut g: usize = 0;
    while g < n_groups
        invariant
            g <= n_groups,
            n_groups == vk_group_count(bytes@),
            len == bytes.len(),
            at <= len,
            at == vk_group_start(bytes@, g as nat),
            vk_groups_fit(bytes@, g as nat),
            committed_indices@.len() == g,
            forall|h: int|
                0 <= h < g ==> group_is_parse_of(
                    (#[trigger] committed_indices@[h])@,
                    bytes@,
                    h as nat,
                ),
        decreases n_groups - g,
    {
        if len - at < 4 {
            assert(!vk_groups_fit(bytes@, n_groups as nat)) by {
                if vk_groups_fit(bytes@, n_groups as nat) {
                    assert(vk_group_fits(bytes@, g as nat));
                }
            }
            return Err(GnarkError::ArkworksSerializationError);
        }
        let group_len: usize = read_be_u32(bytes, at) as usize;
        assert(group_len == vk_group_len(bytes@, g as nat));
        if (len - at - 4) / 8 < group_len {
            assert(!vk_groups_fit(bytes@, n_groups as nat)) by {
                if vk_groups_fit(bytes@, n_groups as nat) {
                    assert(vk_group_fits(bytes@, g as nat));
                }
            }
            return Err(GnarkError::ArkworksSerializationError);
        }
        let from: usize = at + 4;
        let mut indices: Vec<u64> = Vec::with_capacity(group_len);
        let mut j: usize = 0;
        while j < group_len
            invariant
                j <= group_len,
                from + 8 * group_len <= bytes.len(),
                indices@.len() == j,
                forall|i: int|
                    0 <= i < j ==> (#[trigger] indices@[i]) as nat == be_value(
                        bytes@.subrange(from + 8 * i, from + 8 + 8 * i),
                    ),
            decreases group_len - j,
        {
            let index: u64 = read_be_u64(bytes, from + 8 * j);
            indices.push(index);
            j += 1;
        }
        committed_indices.push(indices);
        proof {
            assert(vk_group_start(bytes@, (g + 1) as nat) == at + 4 + 8 * group_len);
            assert(vk_group_fits(bytes@, g as nat));
        }
        at = at + 4 + 8 * group_len;
        g += 1;
    }
    if at != len {
        return Err(GnarkError::ArkworksSerializationError);
    }
    if n_ic < 1 + n_params {
        return Err(GnarkError::IncompatibleVerifyingKeyWithNrPublicInputs);
    }
    Ok(
        GnarkVerifyingKey {
            nr_pubinputs: n_ic - 1 - n_params,
            alpha_g1,
            beta_g2,
            gamma_g2,
            delta_g2,
            ic,
            pedersen_params,
            committed_indices,
        },
    )
}

/// The commitment keys, one after the other.
pub open spec fn keys_wire(keys: Seq<[u8; 256]>) -> Seq<u8>
    decreases keys.len(),
{
    if keys.len() == 0 {
        Seq::empty()
    } else {
        keys_wire(keys.drop_last()) + keys.last()@
    }
}

/// The indices of a group, eight big-endian bytes each, one after the
/// other.
pub open spec fn indices_wire(indices: Seq<u64>) -> Seq<u8>
    decreases indices.len(),
{
    if indices.len() == 0 {
        Seq::empty()
    } else {
        indices_wire(indices.drop_last()) + be_bytes(indices.last() as nat, 8)
    }
}

/// The index groups, each as its length and its indices, one after the
/// other.
pub open spec fn groups_wire(groups: Seq<Vec<u64>>) -> Seq<u8>
    decreases groups.len(),
{
    if groups.len() == 0 {
        Seq::empty()
    } else {
        groups_wire(groups.drop_last()) + be_bytes(groups.last()@.len(), 4) + indices_wire(
            groups.last()@,
        )
    }
}

impl GnarkVerifyingKey {
    /// The wire form of the key.
    pub open spec fn wire(&self) -> Seq<u8> {
        self.alpha_g1@ + self.beta_g2@ + self.gamma_g2@ + self.delta_g2@ + be_bytes(
            self.ic@.len(),
            4,
        ) + GnarkProof::commitments_wire(self.ic@) + be_bytes(self.pedersen_params@.len(), 4)
            + keys_wire(self.pedersen_params@) + be_bytes(self.committed_indices@.len(), 4)
            + groups_wire(self.committed_indices@)
    }

    /// Whether the key has a wire form: every count fits in four bytes,
    /// and the IC vector has an element for each public input and each
    /// commitment, and one more.
    pub open spec fn has_wire(&self) -> bool {
        &&& self.ic@.len() < 0x1_0000_0000
        &&& self.pedersen_params@.len() < 0x1_0000_0000
        &&& self.committed_indices@.len() < 0x1_0000_0000
        &&& forall|g: int|
            0 <= g < self.committed_indices@.len() ==> (#[trigger] self.committed_indices@[g])@.len()
                < 0x1_0000_0000
        &&& self.nr_pubinputs + 1 + self.pedersen_params@.len() == self.ic@.len()
    }
}

/// The keys one after the other take 256 bytes each, and key `k` stands at
/// `256 * k`.
pub proof fn lemma_keys_wire(keys: Seq<[u8; 256]>)
    ensures
        keys_wire(keys).len() == 256 * keys.len(),
        forall|k: int|
            0 <= k < keys.len() ==> keys_wire(keys).subrange(256 * k, 256 * k + 256)
                == (#[trigger] keys[k])@,
    decreases keys.len(),
{
    if keys.len() > 0 {
        let front = keys.drop_last();
        lemma_keys_wire(front);
        let w = keys_wire(keys);
        let wf = keys_wire(front);
        assert forall|k: int| 0 <= k < keys.len() implies w.subrange(256 * k, 256 * k + 256)
            == (#[trigger] keys[k])@ by {
            if k < front.len() {
                assert(front[k] == keys[k]);
                assert(w.subrange(256 * k, 256 * k + 256) =~= wf.subrange(256 * k, 256 * k + 256));
            } else {
                assert(w.subrange(256 * k, 256 * k + 256) =~= keys.last()@);
            }
        }
    }
}

/// The indices one after the other take eight bytes each, and index `j`
/// stands at `8 * j`.
pub proof fn lemma_indices_wire(indices: Seq<u64>)
    ensures
        indices_wire(indices).len() == 8 * indices.len(),
        forall|j: int|
            0 <= j < indices.len() ==> be_value(
                indices_wire(indices).subrange(8 * j, 8 * j + 8),
            ) == #[trigger] indices[j],
    decreases indices.len(),
{
    if indices.len() > 0 {
        let front = indices.drop_last();
        lemma_indices_wire(front);
        let w = indices_wire(indices);
        let wf = indices_wire(front);
        lemma_be_bytes_len(indices.last() as nat, 8);
        lemma_pow256_small();
        lemma_be_bytes_value(indices.last() as nat, 8);
        assert forall|j: int| 0 <= j < indices.len() implies be_value(
            w.subrange(8 * j, 8 * j + 8),
        ) == #[trigger] indices[j] by {
            if j < front.len() {
                assert(front[j] == indices[j]);
                assert(w.subrange(8 * j, 8 * j + 8) =~= wf.subrange(8 * j, 8 * j + 8));
            } else {
                assert(w.subrange(8 * j, 8 * j + 8) =~= be_bytes(indices.last() as nat, 8));
            }
        }
    }
}

/// The length of the groups before group `g`, one after the other.
pub open spec fn groups_offset(groups: Seq<Vec<u64>>, g: int) -> int {
    groups_wire(groups.take(g)).len() as int
}

/// The groups before group `g` one after the other are the beginning of
/// all groups one after the other, and group `g` follows them.
pub proof fn lemma_groups_wire(groups: Seq<Vec<u64>>, g: int)
    requires
        0 <= g < groups.len(),
    ensures
        groups_offset(groups, g + 1) == groups_offset(groups, g) + 4 + 8 * groups[g]@.len(),
        groups_offset(groups, g + 1) <= groups_wire(groups).len(),
        groups_wire(groups).subrange(groups_offset(groups, g), groups_offset(groups, g + 1))
            == be_bytes(groups[g]@.len(), 4) + indices_wire(groups[g]@),
    decreases groups.len(),
{
    let front = groups.drop_last();
    let w = groups_wire(groups);
    let last = be_bytes(groups.last()@.len(), 4) + indices_wire(groups.last()@);
    lemma_be_bytes_len(groups.last()@.len(), 4);
    lemma_indices_wire(groups.last()@);
    lemma_be_bytes_len(groups[g]@.len(), 4);
    lemma_indices_wire(groups[g]@);
    assert(w =~= groups_wire(front) + last);
    assert(groups.take(g + 1).drop_last() =~= groups.take(g));
    assert(groups.take(g + 1).last() == groups[g]);
    if g < front.len() {
        lemma_groups_wire(front, g);
        assert(front.take(g) =~= groups.take(g));
        assert(front.take(g + 1) =~= groups.take(g + 1));
        assert(front[g] == groups[g]);
        assert(w.subrange(groups_offset(groups, g), groups_offset(groups, g + 1))
            =~= groups_wire(front).subrange(
            groups_offset(front, g),
            groups_offset(front, g + 1),
        ));
    } else {
        assert(groups.take(g) =~= front);
        assert(groups.take(g + 1) =~= groups);
        assert(w.subrange(groups_offset(groups, g), groups_offset(groups, g + 1)) =~= last);
    }
}

/// In the wire form of a key, group `g` starts after the groups before it.
pub proof fn lemma_wire_group_start(vk: GnarkVerifyingKey, g: nat)
    requires
        vk.has_wire(),
        g <= vk.committed_indices@.len(),
    ensures
        vk_ic_count(vk.wire()) == vk.ic@.len(),
        vk_params_count(vk.wire()) == vk.pedersen_params@.len(),
        vk_group_count(vk.wire()) == vk.committed_indices@.len(),
        vk_group_start(vk.wire(), g) == vk_groups_at(vk.wire()) + 4 + groups_offset(
            vk.committed_indices@,
            g as int,
        ),
        vk_groups_at(vk.wire()) + 4 + groups_wire(vk.committed_indices@).len()
            == vk.wire().len(),
        g < vk.committed_indices@.len() ==> vk_group_len(vk.wire(), g)
            == vk.committed_indices@[g as int]@.len(),
    decreases g,
{
    let w = vk.wire();
    let groups = vk.committed_indices@;
    lemma_wire_counts(vk);
    let at = vk_groups_at(w) + 4;
    assert(w.subrange(at, w.len() as int) =~= groups_wire(groups));
    if g == 0 {
        assert(groups.take(0) =~= Seq::<Vec<u64>>::empty());
    } else {
        lemma_wire_group_start(vk, (g - 1) as nat);
        lemma_groups_wire(groups, g - 1);
        let before = vk_group_start(w, (g - 1) as nat);
        let o = groups_offset(groups, g - 1);
        lemma_be_bytes_len(groups[g - 1]@.len(), 4);
        assert(w.subrange(before, before + 4) =~= groups_wire(groups).subrange(
            o,
            groups_offset(groups, g as int),
        ).subrange(0, 4));
        assert(w.subrange(before, before + 4) =~= be_bytes(groups[g - 1]@.len(), 4));
        lemma_pow256_small();
        lemma_be_bytes_value(groups[g - 1]@.len(), 4);
    }
    if g < groups.len() {
        lemma_groups_wire(groups, g as int);
        let start = vk_group_start(w, g);
        let o = groups_offset(groups, g as int);
        lemma_be_bytes_len(groups[g as int]@.len(), 4);
        assert(w.subrange(start, start + 4) =~= groups_wire(groups).subrange(
            o,
            groups_offset(groups, g as int + 1),
        ).subrange(0, 4));
        assert(w.subrange(start, start + 4) =~= be_bytes(groups[g as int]@.len(), 4));
        lemma_pow256_small();
        lemma_be_bytes_value(groups[g as int]@.len(), 4);
    }
}

/// In the wire form of a key, the three counts are those of the key, and
/// the parts stand where the counts say.
pub proof fn lemma_wire_counts(vk: GnarkVerifyingKey)
    requires
        vk.has_wire(),
    ensures
        vk_ic_count(vk.wire()) == vk.ic@.len(),
        vk_params_at(vk.wire()) == 452 + 64 * vk.ic@.len(),
        vk_params_count(vk.wire()) == vk.pedersen_params@.len(),
        vk_groups_at(vk.wire()) == 456 + 64 * vk.ic@.len() + 256 * vk.pedersen_params@.len(),
        vk_group_count(vk.wire()) == vk.committed_indices@.len(),
        vk.wire().len() == vk_groups_at(vk.wire()) + 4 + groups_wire(vk.committed_indices@).len(),
{
    let w = vk.wire();
    let n_ic = vk.ic@.len();
    let n_keys = vk.pedersen_params@.len();
    let n_groups = vk.committed_indices@.len();
    lemma_commitments_wire(vk.ic@);
    lemma_keys_wire(vk.pedersen_params@);
    lemma_be_bytes_len(n_ic, 4);
    lemma_be_bytes_len(n_keys, 4);
    lemma_be_bytes_len(n_groups, 4);
    lemma_pow256_small();
    lemma_be_bytes_value(n_ic, 4);
    lemma_be_bytes_value(n_keys, 4);
    lemma_be_bytes_value(n_groups, 4);
    assert(w.subrange(448, 452) =~= be_bytes(n_ic, 4));
    let params_at: int = 452 + 64 * (n_ic as int);
    assert(w.subrange(params_at, params_at + 4) =~= be_bytes(n_keys, 4));
    let groups_at: int = params_at + 4 + 256 * (n_keys as int);
    assert(w.subrange(groups_at, groups_at + 4) =~= be_bytes(n_groups, 4));
}

/// The wire form of a key has the layout of a key, and the key is what its
/// wire form holds: parsing the wire form gives the key back.
pub proof fn lemma_parse_of_wire(vk: GnarkVerifyingKey)
    requires
        vk.has_wire(),
    ensures
        vk_layout_ok(vk.wire()),
        vk_ic_count(vk.wire()) >= 1 + vk_params_count(vk.wire()),
        vk.is_parse_of(vk.wire()),
{
    let w = vk.wire();
    let groups = vk.committed_indices@;
    lemma_wire_counts(vk);
    lemma_commitments_wire(vk.ic@);
    lemma_keys_wire(vk.pedersen_params@);
    lemma_be_bytes_len(vk.ic@.len(), 4);
    lemma_be_bytes_len(vk.pedersen_params@.len(), 4);
    lemma_be_bytes_len(groups.len(), 4);
    lemma_wire_group_start(vk, groups.len());
    assert(groups.take(groups.len() as int) =~= groups);
    assert forall|g: nat| g < groups.len() implies #[trigger] vk_group_fits(w, g) by {
        lemma_wire_group_start(vk, g);
        lemma_wire_group_start(vk, g + 1);
        lemma_groups_wire(groups, g as int);
    }
    assert(w.subrange(0, 64) =~= vk.alpha_g1@);
    assert(w.subrange(64, 192) =~= vk.beta_g2@);
    assert(w.subrange(192, 320) =~= vk.gamma_g2@);
    assert(w.subrange(320, 448) =~= vk.delta_g2@);
    let icw = GnarkProof::commitments_wire(vk.ic@);
    assert forall|k: int| 0 <= k < vk.ic@.len() implies (#[trigger] vk.ic@[k])@ == w.subrange(
        452 + 64 * k,
        516 + 64 * k,
    ) by {
        assert(w.subrange(452 + 64 * k, 516 + 64 * k) =~= icw.subrange(64 * k, 64 * k + 64));
    }
    let kw = keys_wire(vk.pedersen_params@);
    let keys_from = vk_params_at(w) + 4;
    assert forall|k: int| 0 <= k < vk.pedersen_params@.len() implies (
    #[trigger] vk.pedersen_params@[k])@ == w.subrange(
        vk_params_at(w) + 4 + 256 * k,
        vk_params_at(w) + 260 + 256 * k,
    ) by {
        assert(w.subrange(keys_from + 256 * k, keys_from + 256 + 256 * k) =~= kw.subrange(
            256 * k,
            256 * k + 256,
        ));
    }
    let at = vk_groups_at(w) + 4;
    assert(w.subrange(at, w.len() as int) =~= groups_wire(groups));
    assert forall|g: int| 0 <= g < groups.len() implies group_is_parse_of(
        (#[trigger] groups[g])@,
        w,
        g as nat,
    ) by {
        lemma_wire_group_start(vk, g as nat);
        lemma_groups_wire(groups, g);
        lemma_indices_wire(groups[g]@);
        lemma_be_bytes_len(groups[g]@.len(), 4);
        let start = vk_group_start(w, g as nat);
        let o = groups_offset(groups, g);
        let body = groups_wire(groups).subrange(o, groups_offset(groups, g + 1));
        assert forall|j: int| 0 <= j < groups[g]@.len() implies (#[trigger] groups[g]@[j]) as nat
            == be_value(w.subrange(start + 4 + 8 * j, start + 12 + 8 * j)) by {
            assert(w.subrange(start + 4 + 8 * j, start + 12 + 8 * j) =~= body.subrange(
                4 + 8 * j,
                12 + 8 * j,
            ));
            assert(body.subrange(4 + 8 * j, 12 + 8 * j) =~= indices_wire(groups[g]@).subrange(
                8 * j,
                8 * j + 8,
            ));
        }
    }
}

} // verus!
