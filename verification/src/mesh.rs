//! Index buffers of the track meshes. The track ribbon has two vertices per
//! segment (inner edge, outer edge) and closes on itself; each kerb has four
//! vertices of its own per segment. The vertex positions are computed by the
//! caller; these functions give the triangles over them.
use vstd::prelude::*;

verus! {

/// Segments per kerb stripe colour.
pub const KERB_STRIPE_SEGMENTS: usize = 1;

/// The two triangles of ribbon segment `i` of `segments`: its inner and
/// outer vertices (`2i`, `2i + 1`) joined to those of the next segment,
/// the last joined to the first.
pub open spec fn ribbon_quad(segments: nat, i: nat) -> Seq<u32> {
    let b = 2 * i;
    let nb = 2 * ((i + 1) % segments);
    seq![b as u32, nb as u32, (b + 1) as u32, (b + 1) as u32, nb as u32, (nb + 1) as u32]
}

/// The triangles of the first `count` ribbon segments.
pub open spec fn ribbon(segments: nat, count: nat) -> Seq<u32>
    decreases count,
{
    if count == 0 {
        Seq::empty()
    } else {
        ribbon(segments, (count - 1) as nat) + ribbon_quad(segments, (count - 1) as nat)
    }
}

/// The two triangles of kerb segment `i`, over its own four vertices
/// `4i .. 4i + 3` (edge and inner side at the start, then at the end).
pub open spec fn kerb_quad(i: nat) -> Seq<u32> {
    let b = 4 * i;
    seq![b as u32, (b + 2) as u32, (b + 1) as u32, (b + 1) as u32, (b + 2) as u32, (b + 3) as u32]
}

/// The triangles of the first `count` kerb segments.
pub open spec fn kerb(count: nat) -> Seq<u32>
    decreases count,
{
    if count == 0 {
        Seq::empty()
    } else {
        kerb((count - 1) as nat) + kerb_quad((count - 1) as nat)
    }
}

/// Triangle indices of a closed track ribbon of `segments` segments.
pub fn ribbon_indices(segments: usize) -> (r: Vec<u32>)
    requires
        segments <= 0x7fff_ffff,
    ensures
        r@ == ribbon(segments as nat, segments as nat),
{
    let mut indices: Vec<u32> = Vec::new();
    let mut i: usize = 0;
    while i < segments
        invariant
            i <= segments <= 0x7fff_ffff,
            indices@ == ribbon(segments as nat, i as nat),
        decreases segments - i,
    {
        let base = (i * 2) as u32;
        let next_base = ((i + 1) % segments * 2) as u32;
        indices.push(base);
        indices.push(next_base);
        indices.push(base + 1);
        indices.push(base + 1);
        indices.push(next_base);
        indices.push(next_base + 1);
        assert(indices@ =~= ribbon(segments as nat, i as nat) + ribbon_quad(segments as nat, i as nat));
        i = i + 1;
    }
    indices
}

/// Triangle indices of one kerb of `segments` segments.
pub fn kerb_indices(segments: usize) -> (r: Vec<u32>)
    requires
        segments <= 0x3fff_ffff,
    ensures
        r@ == kerb(segments as nat),
{
    let mut indices: Vec<u32> = Vec::new();
    let mut i: usize = 0;
    while i < segments
        invariant
            i <= segments <= 0x3fff_ffff,
            indices@ == kerb(i as nat),
        decreases segments - i,
    {
        let base = (i * 4) as u32;
        indices.push(base);
        indices.push(base + 2);
        indices.push(base + 1);
        indices.push(base + 1);
        indices.push(base + 2);
        indices.push(base + 3);
        assert(indices@ =~= kerb(i as nat) + kerb_quad(i as nat));
        i = i + 1;
    }
    indices
}

/// Whether kerb segment `i` is in a red stripe (the others are white):
/// stripes alternate every [`KERB_STRIPE_SEGMENTS`] segments, red first.
pub fn kerb_stripe_red(i: usize) -> (r: bool)
    ensures
        r == ((i / KERB_STRIPE_SEGMENTS) % 2 == 0),
{
    (i / KERB_STRIPE_SEGMENTS) % 2 == 0
}

/// A ribbon of `segments` segments has six indices per segment, each naming
/// one of its `2 * segments` vertices.
pub proof fn lemma_ribbon_in_range(segments: nat, count: nat)
    requires
        count <= segments <= 0x7fff_ffff,
    ensures
        ribbon(segments, count).len() == 6 * count,
        forall|k: int| 0 <= k < ribbon(segments, count).len() ==> #[trigger] ribbon(segments, count)[k] < 2 * segments,
    decreases count,
{
    if count > 0 {
        let c = (count - 1) as nat;
        lemma_ribbon_in_range(segments, c);
        let prev = ribbon(segments, c);
        let q = ribbon_quad(segments, c);
        assert(2 * c + 1 < 2 * segments);
        assert(2 * ((c + 1) % segments) + 1 < 2 * segments);
        assert forall|k: int| 0 <= k < (prev + q).len() implies #[trigger] (prev + q)[k] < 2 * segments by {
            if k >= prev.len() {
                assert((prev + q)[k] == q[k - prev.len()]);
            } else {
                assert((prev + q)[k] == prev[k]);
            }
        }
    }
}

/// A kerb of `segments` segments has six indices per segment, each naming
/// one of its `4 * segments` vertices.
pub proof fn lemma_kerb_in_range(segments: nat, count: nat)
    requires
        count <= segments <= 0x3fff_ffff,
    ensures
        kerb(count).len() == 6 * count,
        forall|k: int| 0 <= k < kerb(count).len() ==> #[trigger] kerb(count)[k] < 4 * segments,
    decreases count,
{
    if count > 0 {
        let c = (count - 1) as nat;
        lemma_kerb_in_range(segments, c);
        let prev = kerb(c);
        let q = kerb_quad(c);
        assert(4 * c + 3 < 4 * segments);
        assert forall|k: int| 0 <= k < (prev + q).len() implies #[trigger] (prev + q)[k] < 4 * segments by {
            if k >= prev.len() {
                assert((prev + q)[k] == q[k - prev.len()]);
            } else {
                assert((prev + q)[k] == prev[k]);
            }
        }
    }
}

} // verus!
