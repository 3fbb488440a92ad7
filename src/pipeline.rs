use dashmap::DashMap;
use vstd::prelude::*;

use crate::ppm::{ppm_image, Rgb};

verus! {

/// dashmap's concurrent map, declared so that the pixel buffer can stand
/// in signatures; its contents are named by `buffer_contents`.
#[verifier::external_type_specification]
#[verifier::external_body]
#[verifier::reject_recursive_types(K)]
#[verifier::reject_recursive_types(V)]
#[verifier::reject_recursive_types(S)]
pub struct ExDashMap<K, V, S>(DashMap<K, V, S>);

/// A pixel coordinate: column, then row.
pub type PixelKey = (u32, u32);

/// The shared buffer into which render workers put finished pixels.
pub type PixelBuffer = DashMap<PixelKey, Rgb>;

/// What a pixel buffer holds, by pixel coordinate.
pub uninterp spec fn buffer_contents(m: PixelBuffer) -> Map<PixelKey, Rgb>;

/// Relies on `DashMap::contains_key`: whether the key has an entry.
#[verifier::external_body]
fn buffer_has(m: &PixelBuffer, key: PixelKey) -> (r: bool)
    ensures
        r == buffer_contents(*m).contains_key(key),
{
    m.contains_key(&key)
}

/// Relies on `DashMap::remove`: takes the entry of the key out of the map
/// and hands back its value, or leaves the map as it is where there is none.
#[verifier::external_body]
fn buffer_take(m: &mut PixelBuffer, key: PixelKey) -> (r: Option<Rgb>)
    ensures
        buffer_contents(*final(m)) == buffer_contents(*old(m)).remove(key),
        r == (if buffer_contents(*old(m)).contains_key(key) {
            Some(buffer_contents(*old(m))[key])
        } else {
            None
        }),
{
    m.remove(&key).map(|kv| kv.1)
}

/// The position of pixel `(i, j)` in raster order.
pub open spec fn raster_index(width: nat, i: nat, j: nat) -> int {
    (j * width + i) as int
}

/// The keys of every pixel of a `width` by `height` image, row by row and
/// left to right within a row.
pub open spec fn raster_keys(width: nat, height: nat) -> Seq<PixelKey> {
    Seq::new(width * height, |k: int| ((k % width as int) as u32, (k / width as int) as u32))
}

/// Whether a map holds a pixel for every coordinate of the image.
pub open spec fn covers(m: Map<PixelKey, Rgb>, width: nat, height: nat) -> bool {
    forall|i: u32, j: u32| i < width && j < height ==> #[trigger] m.contains_key((i, j))
}

/// The pixels of the image in raster order, read from a map by coordinate.
pub open spec fn raster_image(m: Map<PixelKey, Rgb>, width: nat, height: nat) -> Seq<Rgb> {
    raster_keys(width, height).map_values(|key: PixelKey| m[key])
}

/// The map that results from inserting the entries one after another.
pub open spec fn fill(entries: Seq<(PixelKey, Rgb)>) -> Map<PixelKey, Rgb>
    decreases entries.len(),
{
    if entries.len() == 0 {
        Map::empty()
    } else {
        fill(entries.drop_last()).insert(entries.last().0, entries.last().1)
    }
}

proof fn lemma_div_mod_row(width: nat, i: nat, j: nat)
    requires
        width > 0,
        i < width,
    ensures
        ((j * width + i) as int) % (width as int) == i as int,
        ((j * width + i) as int) / (width as int) == j as int,
{
    vstd::arithmetic::div_mod::lemma_fundamental_div_mod_converse(
        (j * width + i) as int,
        width as int,
        j as int,
        i as int,
    );
}

/// Every pixel coordinate of a `width` by `height` image, in raster order:
/// the order in which the render dispatches its work.
pub fn raster_order(width: u32, height: u32) -> (r: Vec<PixelKey>)
    ensures
        r@ == raster_keys(width as nat, height as nat),
{
    let mut out: Vec<PixelKey> = Vec::new();
    let mut j: u32 = 0;
    while j < height
        invariant
            j <= height,
            out@.len() == j as nat * width as nat,
            forall|k: int| 0 <= k < out@.len() ==> #[trigger] out@[k] == raster_keys(width as nat, height as nat)[k],
        decreases height - j,
    {
        let mut i: u32 = 0;
        while i < width
            invariant
                j < height,
                i <= width,
                out@.len() == j as nat * width as nat + i,
                forall|k: int| 0 <= k < out@.len() ==> #[trigger] out@[k] == raster_keys(width as nat, height as nat)[k],
            decreases width - i,
        {
            proof {
                lemma_div_mod_row(width as nat, i as nat, j as nat);
                assert(j as nat * width as nat + i < height as nat * width as nat) by (nonlinear_arith)
                    requires j < height, i < width;
                assert(height as nat * width as nat == width as nat * height as nat) by (nonlinear_arith);
            }
            out.push((i, j));
            i = i + 1;
        }
        proof {
            assert((j + 1) as nat * width as nat == j as nat * width as nat + width as nat) by (nonlinear_arith);
        }
        j = j + 1;
    }
    assert(height as nat * width as nat == width as nat * height as nat) by (nonlinear_arith);
    assert(out@ =~= raster_keys(width as nat, height as nat));
    out
}

/// Takes every pixel of a `width` by `height` image out of the buffer, in
/// raster order. Where some pixel is missing nothing is taken and `None`
/// comes back.
pub fn drain_raster(results: &mut PixelBuffer, width: u32, height: u32) -> (r: Option<Vec<Rgb>>)
    ensures
        r is Some <==> covers(buffer_contents(*old(results)), width as nat, height as nat),
        r is None ==> buffer_contents(*final(results)) == buffer_contents(*old(results)),
        r matches Some(px) ==> {
            &&& px@ == raster_image(buffer_contents(*old(results)), width as nat, height as nat)
            &&& buffer_contents(*final(results)) == buffer_contents(*old(results)).remove_keys(
                raster_keys(width as nat, height as nat).to_set(),
            )
        },
{
    let keys = raster_order(width, height);
    let ghost m0 = buffer_contents(*results);
    let ghost rk = raster_keys(width as nat, height as nat);
    assert(rk.len() == width as nat * height as nat);
    let mut k: usize = 0;
    while k < keys.len()
        invariant
            keys@ == rk,
            rk == raster_keys(width as nat, height as nat),
            rk.len() == width as nat * height as nat,
            k <= keys.len(),
            buffer_contents(*results) == m0,
            forall|q: int| 0 <= q < k ==> m0.contains_key(#[trigger] rk[q]),
        decreases keys.len() - k,
    {
        if !buffer_has(results, keys[k]) {
            proof {
                let key = rk[k as int];
                assert(k < rk.len());
                lemma_raster_key_in_range(width as nat, height as nat, k as int);
                assert(key.0 < width);
                assert(key.1 < height);
                assert(!m0.contains_key((key.0, key.1)));
            }
            return None;
        }
        k = k + 1;
    }
    proof {
        assert forall|i: u32, j: u32| i < width && j < height implies #[trigger] m0.contains_key((i, j)) by {
            lemma_raster_key_at(width as nat, height as nat, i as nat, j as nat);
        }
    }
    let mut px: Vec<Rgb> = Vec::new();
    k = 0;
    while k < keys.len()
        invariant
            keys@ == rk,
            rk == raster_keys(width as nat, height as nat),
            rk.len() == width as nat * height as nat,
            k <= keys.len(),
            covers(m0, width as nat, height as nat),
            px@.len() == k,
            forall|q: int| 0 <= q < k ==> #[trigger] px@[q] == m0[rk[q]],
            buffer_contents(*results) == m0.remove_keys(rk.subrange(0, k as int).to_set()),
        decreases keys.len() - k,
    {
        let ghost before = buffer_contents(*results);
        proof {
            lemma_raster_key_in_range(width as nat, height as nat, k as int);
            lemma_raster_keys_distinct(width as nat, height as nat, k as int);
            let key = rk[k as int];
            assert(m0.contains_key(key));
            if rk.subrange(0, k as int).to_set().contains(key) {
                let w = choose|w: int| 0 <= w < k && #[trigger] rk.subrange(0, k as int)[w] == key;
                assert(rk[w] == key);
            }
            assert(buffer_contents(*results).contains_key(key));
        }
        let taken = buffer_take(results, keys[k]);
        match taken {
            Some(p) => {
                px.push(p);
            },
            None => {
                proof {
                    assert(false);
                }
            },
        }
        proof {
            assert(rk.subrange(0, k + 1).to_set() =~= rk.subrange(0, k as int).to_set().insert(rk[k as int])) by {
                assert forall|x: PixelKey| rk.subrange(0, k + 1).to_set().contains(x) <==> rk.subrange(0, k as int).to_set().insert(rk[k as int]).contains(x) by {
                    if rk.subrange(0, k + 1).to_set().contains(x) {
                        let w = choose|w: int| 0 <= w < k + 1 && #[trigger] rk.subrange(0, k + 1)[w] == x;
                        if w < k {
                            assert(rk.subrange(0, k as int)[w] == x);
                        }
                    }
                    if rk.subrange(0, k as int).to_set().contains(x) {
                        let w = choose|w: int| 0 <= w < k && #[trigger] rk.subrange(0, k as int)[w] == x;
                        assert(rk.subrange(0, k + 1)[w] == x);
                    }
                    if x == rk[k as int] {
                        assert(rk.subrange(0, k + 1)[k as int] == x);
                    }
                }
            }
            assert(buffer_contents(*results) =~= m0.remove_keys(rk.subrange(0, k + 1).to_set()));
        }
        k = k + 1;
    }
    proof {
        assert(rk.subrange(0, k as int) =~= rk);
        assert(px@ =~= raster_image(m0, width as nat, height as nat));
    }
    Some(px)
}

proof fn lemma_raster_key_in_range(width: nat, height: nat, k: int)
    requires
        0 <= k < width * height,
        width <= u32::MAX,
        height <= u32::MAX,
    ensures
        raster_keys(width, height)[k].0 < width,
        raster_keys(width, height)[k].1 < height,
        raster_keys(width, height)[k].0 == k % width as int,
        raster_keys(width, height)[k].1 == k / width as int,
{
    assert(width > 0) by (nonlinear_arith)
        requires 0 <= k < width * height;
    vstd::arithmetic::div_mod::lemma_div_pos_is_pos(k, width as int);
    vstd::arithmetic::div_mod::lemma_div_is_ordered(k, (width * height) as int, width as int);
    vstd::arithmetic::div_mod::lemma_div_by_multiple(height as int, width as int);
    assert((width * height) as int == height as int * width as int) by (nonlinear_arith);
    assert(k / width as int <= height as int);
    vstd::arithmetic::div_mod::lemma_fundamental_div_mod(k, width as int);
    if k / width as int == height as int {
        assert(k == width as int * height as int + k % width as int);
    }
    assert(k / width as int <= u32::MAX);
}

proof fn lemma_raster_key_at(width: nat, height: nat, i: nat, j: nat)
    requires
        i < width,
        j < height,
        width <= u32::MAX,
        height <= u32::MAX,
    ensures
        0 <= raster_index(width, i, j) < width * height,
        raster_keys(width, height)[raster_index(width, i, j)] == (i as u32, j as u32),
{
    lemma_div_mod_row(width, i, j);
    assert(j * width + i < height * width) by (nonlinear_arith)
        requires j < height, i < width;
    assert(height * width == width * height) by (nonlinear_arith);
}

proof fn lemma_raster_keys_distinct(width: nat, height: nat, k: int)
    requires
        0 <= k < width * height,
        width <= u32::MAX,
        height <= u32::MAX,
    ensures
        forall|q: int| 0 <= q < k ==> raster_keys(width, height)[q] != #[trigger] raster_keys(width, height)[k],
{
    assert forall|q: int| 0 <= q < k implies raster_keys(width, height)[q] != #[trigger] raster_keys(width, height)[k] by {
        lemma_raster_key_in_range(width, height, q);
        lemma_raster_key_in_range(width, height, k);
        vstd::arithmetic::div_mod::lemma_fundamental_div_mod(k, width as int);
        vstd::arithmetic::div_mod::lemma_fundamental_div_mod(q, width as int);
    }
}

/// Every completion carries the color that `color` gives its pixel.
pub open spec fn consistent_with(entries: Seq<(PixelKey, Rgb)>, color: Map<PixelKey, Rgb>) -> bool {
    forall|q: int| 0 <= q < entries.len() ==> color.contains_key(#[trigger] entries[q].0) && entries[q].1 == color[entries[q].0]
}

/// Some completion is for pixel `key`.
pub open spec fn reaches(entries: Seq<(PixelKey, Rgb)>, key: PixelKey) -> bool {
    exists|q: int| 0 <= q < entries.len() && #[trigger] entries[q].0 == key
}

/// Every pixel of the image has at least one completion.
pub open spec fn completes(entries: Seq<(PixelKey, Rgb)>, width: nat, height: nat) -> bool {
    forall|i: u32, j: u32| i < width && j < height ==> #[trigger] reaches(entries, (i, j))
}

proof fn lemma_fill_consistent(entries: Seq<(PixelKey, Rgb)>, color: Map<PixelKey, Rgb>)
    requires
        consistent_with(entries, color),
    ensures
        forall|key: PixelKey| #[trigger] fill(entries).contains_key(key) <==> reaches(entries, key),
        forall|key: PixelKey| #[trigger] fill(entries).contains_key(key) ==> fill(entries)[key] == color[key],
    decreases entries.len(),
{
    if entries.len() > 0 {
        let rest = entries.drop_last();
        assert forall|q: int| 0 <= q < rest.len() implies color.contains_key(#[trigger] rest[q].0) && rest[q].1 == color[rest[q].0] by {
            assert(rest[q] == entries[q]);
        }
        lemma_fill_consistent(rest, color);
        let last = entries.len() - 1;
        assert(entries[last].1 == color[entries[last].0]);
        assert(fill(entries) == fill(rest).insert(entries[last].0, entries[last].1));
        assert forall|key: PixelKey| #[trigger] fill(entries).contains_key(key) implies fill(entries)[key] == color[key] by {
            if key != entries[last].0 {
                assert(fill(rest).contains_key(key));
            }
        }
        assert forall|key: PixelKey| #[trigger] fill(entries).contains_key(key) <==> reaches(entries, key) by {
            if fill(entries).contains_key(key) && key != entries[last].0 {
                assert(fill(rest).contains_key(key));
                let q = choose|q: int| 0 <= q < rest.len() && #[trigger] rest[q].0 == key;
                assert(entries[q].0 == key);
                assert(reaches(entries, key));
            }
            if key == entries[last].0 {
                assert(reaches(entries, key));
            }
            if reaches(entries, key) {
                let q = choose|q: int| 0 <= q < entries.len() && #[trigger] entries[q].0 == key;
                if q < last {
                    assert(rest[q].0 == key);
                    assert(reaches(rest, key));
                }
            }
        }
    }
}

/// The pixels that a render writes out do not depend on the order in
/// which its workers finish, nor on how many workers there are. Where every
/// completed pixel carries the color that its coordinate determines, any two
/// completion sequences that each reach every pixel of the image fill the
/// buffer so that it covers the image and drains to the same pixels and the
/// same PPM file.
pub proof fn lemma_completion_order_irrelevant(
    a: Seq<(PixelKey, Rgb)>,
    b: Seq<(PixelKey, Rgb)>,
    color: Map<PixelKey, Rgb>,
    width: u32,
    height: u32,
)
    requires
        consistent_with(a, color),
        consistent_with(b, color),
        completes(a, width as nat, height as nat),
        completes(b, width as nat, height as nat),
    ensures
        covers(fill(a), width as nat, height as nat),
        covers(fill(b), width as nat, height as nat),
        raster_image(fill(a), width as nat, height as nat) == raster_image(fill(b), width as nat, height as nat),
        ppm_image(width as nat, height as nat, raster_image(fill(a), width as nat, height as nat))
            == ppm_image(width as nat, height as nat, raster_image(fill(b), width as nat, height as nat)),
{
    lemma_fill_consistent(a, color);
    lemma_fill_consistent(b, color);
    assert forall|i: u32, j: u32| i < width && j < height implies #[trigger] fill(a).contains_key((i, j)) && fill(b).contains_key((i, j)) by {
        assert(reaches(a, (i, j)));
        assert(reaches(b, (i, j)));
    }
    let rk = raster_keys(width as nat, height as nat);
    assert forall|k: int| 0 <= k < rk.len() implies fill(a)[#[trigger] rk[k]] == fill(b)[rk[k]] by {
        lemma_raster_key_in_range(width as nat, height as nat, k);
        assert(fill(a).contains_key((rk[k].0, rk[k].1)));
        assert(fill(b).contains_key((rk[k].0, rk[k].1)));
    }
    assert(raster_image(fill(a), width as nat, height as nat) =~= raster_image(fill(b), width as nat, height as nat));
}

} // verus!
