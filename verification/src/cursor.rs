//! The remote cursor: its position, and a bounded cache of the cursor images
//! the peer sent, one of which is selected.
use crate::session::{bump_sequence, next_sequence};
use std::collections::BTreeMap;
use vstd::prelude::*;

verus! {

/// At most this many cursor images are cached.
pub const CURSOR_CACHE_LIMIT: usize = 64;

/// The largest cursor side accepted, in pixels.
pub const MAX_CURSOR_SIDE: i32 = 512;

/// A cursor image: RGBA pixels and the hotspot inside them.
pub struct RemoteCursorImage {
    pub id: u64,
    pub hotx: i32,
    pub hoty: i32,
    pub width: i32,
    pub height: i32,
    pub colors: Vec<u8>,
}

/// A cursor image with its pixels as a sequence.
pub struct CursorImageModel {
    pub id: u64,
    pub hotx: i32,
    pub hoty: i32,
    pub width: i32,
    pub height: i32,
    pub colors: Seq<u8>,
}

impl View for RemoteCursorImage {
    type V = CursorImageModel;

    open spec fn view(&self) -> CursorImageModel {
        CursorImageModel {
            id: self.id,
            hotx: self.hotx,
            hoty: self.hoty,
            width: self.width,
            height: self.height,
            colors: self.colors@,
        }
    }
}

/// Why a cursor image was refused.
#[derive(Clone, Copy, Debug, PartialEq, Eq, Structural)]
pub enum CursorRejection {
    /// A side is not in `1..=MAX_CURSOR_SIDE`.
    InvalidDimensions,
    /// The pixels are not `width * height` RGBA values.
    SizeMismatch,
}

pub open spec fn clamp_spec(v: i32, lo: i32, hi: i32) -> i32 {
    if v < lo {
        lo
    } else if v > hi {
        hi
    } else {
        v
    }
}

/// Checks a cursor image the peer sent (its pixels already decompressed)
/// and clamps its hotspot into the image.
pub fn accept_cursor_image(
    id: u64,
    hotx: i32,
    hoty: i32,
    width: i32,
    height: i32,
    colors: Vec<u8>,
) -> (r: Result<RemoteCursorImage, CursorRejection>)
    ensures
        (width <= 0 || height <= 0 || width > MAX_CURSOR_SIDE || height > MAX_CURSOR_SIDE) ==> r
            matches Err(CursorRejection::InvalidDimensions),
        !(width <= 0 || height <= 0 || width > MAX_CURSOR_SIDE || height > MAX_CURSOR_SIDE) ==> {
            if colors@.len() != width * height * 4 {
                r matches Err(CursorRejection::SizeMismatch)
            } else {
                r matches Ok(img) && img@ == (CursorImageModel {
                    id,
                    hotx: clamp_spec(hotx, 0, (width - 1) as i32),
                    hoty: clamp_spec(hoty, 0, (height - 1) as i32),
                    width,
                    height,
                    colors: colors@,
                })
            }
        },
{
    if width <= 0 || height <= 0 || width > MAX_CURSOR_SIDE || height > MAX_CURSOR_SIDE {
        return Err(CursorRejection::InvalidDimensions);
    }
    let w = width as usize;
    let h = height as usize;
    assert(w * h <= 512 * 512) by (nonlinear_arith)
        requires
            w <= 512,
            h <= 512,
    ;
    let expected = w * h * 4;
    if colors.len() != expected {
        return Err(CursorRejection::SizeMismatch);
    }
    let max_x = width - 1;
    let max_y = height - 1;
    let hx = if hotx < 0 {
        0
    } else if hotx > max_x {
        max_x
    } else {
        hotx
    };
    let hy = if hoty < 0 {
        0
    } else if hoty > max_y {
        max_y
    } else {
        hoty
    };
    Ok(RemoteCursorImage { id, hotx: hx, hoty: hy, width, height, colors })
}

/// The smallest id of `m` other than `keep`.
pub open spec fn smallest_other(m: Map<u64, CursorImageModel>, keep: u64) -> u64 {
    choose|k: u64|
        m.contains_key(k) && k != keep && forall|k2: u64|
            m.contains_key(k2) && k2 != keep ==> k <= k2
}

/// The cache after storing `img`: when that makes it overfull, the image
/// with the smallest id other than `img`'s leaves.
pub open spec fn cache_after_insert(m: Map<u64, CursorImageModel>, img: CursorImageModel) -> Map<
    u64,
    CursorImageModel,
> {
    let inserted = m.insert(img.id, img);
    if inserted.len() > CURSOR_CACHE_LIMIT {
        inserted.remove(smallest_other(inserted, img.id))
    } else {
        inserted
    }
}

/// The cached cursor images by id.
pub struct CursorCache {
    images: BTreeMap<u64, RemoteCursorImage>,
}

impl CursorCache {
    #[verifier::type_invariant]
    closed spec fn bounded(&self) -> bool {
        &&& self.images@.len() <= CURSOR_CACHE_LIMIT
        &&& forall|k: u64| #[trigger] self.images@.contains_key(k) ==> self.images@[k].id == k
    }
}

impl View for CursorCache {
    type V = Map<u64, CursorImageModel>;

    closed spec fn view(&self) -> Map<u64, CursorImageModel> {
        self.images@.map_values(|img: RemoteCursorImage| img@)
    }
}

/// The smallest key of `m` other than `keep`.
fn smallest_other_key(m: &BTreeMap<u64, RemoteCursorImage>, keep: u64) -> (k: u64)
    requires
        exists|c: u64| m@.contains_key(c) && c != keep,
    ensures
        m@.contains_key(k),
        k != keep,
        forall|c: u64| m@.contains_key(c) && c != keep ==> k <= c,
{
    broadcast use vstd::std_specs::btree::group_btree_axioms, vstd::laws_cmp::group_laws_cmp;

    let mut best: Option<u64> = None;
    let ghost mut seen: Set<u64> = Set::empty();
    for key in it: m.keys()
        invariant
            it.seq().unref().to_set() == m@.dom(),
            seen == it.seq().unref().take(it.index()).to_set(),
            it.index() == it.seq().len() ==> seen == m@.dom(),
            match best {
                Some(b) => seen.contains(b) && b != keep && forall|c: u64|
                    #[trigger] seen.contains(c) && c != keep ==> b <= c,
                None => forall|c: u64| #[trigger] seen.contains(c) ==> c == keep,
            },
    {
        let k = *key;
        assert(it.seq().unref().take(it.index() + 1) =~= it.seq().unref().take(it.index()).push(k));
        assert(it.seq().unref().take(it.index()).push(k).to_set() =~= it.seq().unref().take(
            it.index(),
        ).to_set().insert(k)) by {
            broadcast use vstd::seq::Seq::lemma_push_to_set_commute;
        }
        assert(it.index() + 1 == it.seq().len() ==> it.seq().unref().take(it.index() + 1)
            =~= it.seq().unref());
        proof {
            seen = seen.insert(k);
        }
        if k != keep {
            match best {
                Some(b) => {
                    if k < b {
                        best = Some(k);
                    }
                },
                None => {
                    best = Some(k);
                },
            }
        }
    }
    match best {
        Some(b) => b,
        None => {
            proof {
                let c = choose|c: u64| m@.contains_key(c) && c != keep;
                assert(seen.contains(c));
            }
            0
        },
    }
}

impl CursorCache {
    pub fn new() -> (r: CursorCache)
        ensures
            r@ == Map::<u64, CursorImageModel>::empty(),
    {
        let r = CursorCache { images: BTreeMap::new() };
        assert(r@ =~= Map::<u64, CursorImageModel>::empty());
        r
    }

    pub fn len(&self) -> (r: usize)
        ensures
            self@.dom().finite(),
            r == self@.len(),
            r <= CURSOR_CACHE_LIMIT,
    {
        broadcast use vstd::std_specs::btree::group_btree_axioms, vstd::laws_cmp::group_laws_cmp;

        proof {
            use_type_invariant(self);
            assert(self@.dom() =~= self.images@.dom());
        }
        self.images.len()
    }

    pub fn contains(&self, id: u64) -> (r: bool)
        ensures
            r == self@.contains_key(id),
    {
        broadcast use vstd::std_specs::btree::group_btree_axioms, vstd::laws_cmp::group_laws_cmp;

        self.images.contains_key(&id)
    }

    pub fn get(&self, id: u64) -> (r: Option<&RemoteCursorImage>)
        ensures
            match r {
                Some(img) => self@.contains_key(id) && img@ == self@[id],
                None => !self@.contains_key(id),
            },
    {
        broadcast use vstd::std_specs::btree::group_btree_axioms, vstd::laws_cmp::group_laws_cmp;

        self.images.get(&id)
    }

    pub fn clear(&mut self)
        ensures
            final(self)@ == Map::<u64, CursorImageModel>::empty(),
    {
        self.images = BTreeMap::new();
        assert(self@ =~= Map::<u64, CursorImageModel>::empty());
    }

    /// Stores `img` under its id; when the cache then holds more than
    /// `CURSOR_CACHE_LIMIT` images, the one with the smallest other id leaves.
    pub fn insert(&mut self, img: RemoteCursorImage)
        ensures
            final(self)@ == cache_after_insert(old(self)@, img@),
    {
        broadcast use vstd::std_specs::btree::group_btree_axioms, vstd::laws_cmp::group_laws_cmp;

        proof {
            use_type_invariant(&*self);
        }
        let mut m: BTreeMap<u64, RemoteCursorImage> = BTreeMap::new();
        std::mem::swap(&mut m, &mut self.images);
        let ghost old_m = m@;
        let ghost model = img@;
        let id = img.id;
        m.insert(id, img);
        let ghost inserted = m@;
        assert(inserted.map_values(|i: RemoteCursorImage| i@) =~= old_m.map_values(
            |i: RemoteCursorImage| i@,
        ).insert(id, model));
        assert(inserted.dom() =~= old_m.map_values(|i: RemoteCursorImage| i@).insert(id, model).dom());
        if m.len() > CURSOR_CACHE_LIMIT {
            let ghost mv = inserted.map_values(|i: RemoteCursorImage| i@);
            proof {
                // More than one image is cached, so one has another id.
                let other = inserted.dom().remove(id);
                assert(other.len() > 0);
                let c = other.choose();
                assert(other.contains(c));
                lemma_smallest_other(mv, id);
            }
            let k = smallest_other_key(&m, id);
            proof {
                let s = smallest_other(mv, id);
                assert(k <= s && s <= k);
            }
            m.remove(&k);
            assert(m@.map_values(|i: RemoteCursorImage| i@) =~= mv.remove(k));
        }
        self.images = m;
    }
}

/// A cache that holds at most `CURSOR_CACHE_LIMIT` images still does after
/// storing one more, the image just stored is always in it, and every other
/// image in it was there before, unchanged.
pub proof fn cursor_cache_stays_bounded(m: Map<u64, CursorImageModel>, img: CursorImageModel)
    requires
        m.dom().finite(),
        m.len() <= CURSOR_CACHE_LIMIT,
    ensures
        cache_after_insert(m, img).dom().finite(),
        cache_after_insert(m, img).len() <= CURSOR_CACHE_LIMIT,
        cache_after_insert(m, img).contains_key(img.id),
        cache_after_insert(m, img)[img.id] == img,
        forall|k: u64|
            #[trigger] cache_after_insert(m, img).contains_key(k) && k != img.id ==> m.contains_key(
                k,
            ) && cache_after_insert(m, img)[k] == m[k],
{
    let inserted = m.insert(img.id, img);
    if inserted.len() > CURSOR_CACHE_LIMIT {
        if m.contains_key(img.id) {
            assert(inserted.dom() =~= m.dom());
        }
        assert(inserted.dom().remove(img.id) =~= m.dom().remove(img.id));
        lemma_smallest_other(inserted, img.id);
    }
}

proof fn lemma_smallest_other(m: Map<u64, CursorImageModel>, keep: u64)
    requires
        m.dom().finite(),
        m.dom().remove(keep).len() > 0,
    ensures
        m.contains_key(smallest_other(m, keep)),
        smallest_other(m, keep) != keep,
{
    let s = m.dom().remove(keep);
    lemma_min_exists(s);
    let w = choose|k: u64| s.contains(k) && forall|k2: u64| s.contains(k2) ==> k <= k2;
    assert(m.contains_key(w) && w != keep && forall|k2: u64|
        m.contains_key(k2) && k2 != keep ==> w <= k2) by {
        assert forall|k2: u64| m.contains_key(k2) && k2 != keep implies w <= k2 by {
            assert(s.contains(k2));
        }
    }
}

/// A finite nonempty set of ids has a smallest one.
proof fn lemma_min_exists(s: Set<u64>)
    requires
        s.finite(),
        s.len() > 0,
    ensures
        exists|k: u64| s.contains(k) && forall|k2: u64| s.contains(k2) ==> k <= k2,
    decreases s.len(),
{
    let w = s.choose();
    let rest = s.remove(w);
    if rest.len() == 0 {
        assert forall|k2: u64| s.contains(k2) implies w <= k2 by {
            if k2 != w {
                assert(rest.contains(k2));
            }
        }
    } else {
        lemma_min_exists(rest);
        let m = choose|k: u64| rest.contains(k) && forall|k2: u64| rest.contains(k2) ==> k <= k2;
        if w < m {
            assert forall|k2: u64| s.contains(k2) implies w <= k2 by {
                if k2 != w {
                    assert(rest.contains(k2));
                }
            }
        } else {
            assert forall|k2: u64| s.contains(k2) implies m <= k2 by {
                if k2 != w {
                    assert(rest.contains(k2));
                }
            }
        }
    }
}

// ------------------------------------------------------------ cursor state

/// The remote cursor as last reported: its position, the selected image,
/// and counters that move on whenever either changes.
pub struct CursorState {
    pub x: i32,
    pub y: i32,
    pub sequence: u64,
    pub valid: bool,
    pub image_id: u64,
    pub image_sequence: u64,
    pub image_valid: bool,
    pub images: CursorCache,
}

impl CursorState {
    pub fn new() -> (r: CursorState)
        ensures
            r.x == 0 && r.y == 0 && r.sequence == 0 && !r.valid,
            r.image_id == 0 && r.image_sequence == 0 && !r.image_valid,
            r.images@ == Map::<u64, CursorImageModel>::empty(),
    {
        CursorState {
            x: 0,
            y: 0,
            sequence: 0,
            valid: false,
            image_id: 0,
            image_sequence: 0,
            image_valid: false,
            images: CursorCache::new(),
        }
    }

    /// Forgets the cursor of the previous session.
    pub fn reset(&mut self)
        ensures
            !final(self).valid,
            final(self).sequence == next_sequence(old(self).sequence),
            !final(self).image_valid,
            final(self).image_id == 0,
            final(self).image_sequence == next_sequence(old(self).image_sequence),
            final(self).images@ == Map::<u64, CursorImageModel>::empty(),
            final(self).x == old(self).x,
            final(self).y == old(self).y,
    {
        self.valid = false;
        self.sequence = bump_sequence(self.sequence);
        self.image_valid = false;
        self.image_id = 0;
        self.image_sequence = bump_sequence(self.image_sequence);
        self.images.clear();
    }

    /// A new cursor position from the peer.
    pub fn set_position(&mut self, x: i32, y: i32)
        ensures
            final(self).x == x,
            final(self).y == y,
            final(self).valid,
            final(self).sequence == next_sequence(old(self).sequence),
            final(self).image_id == old(self).image_id,
            final(self).image_valid == old(self).image_valid,
            final(self).image_sequence == old(self).image_sequence,
            final(self).images@ == old(self).images@,
    {
        self.x = x;
        self.y = y;
        self.valid = true;
        self.sequence = bump_sequence(self.sequence);
    }

    /// Stores an accepted image and selects it.
    pub fn store_image(&mut self, img: RemoteCursorImage)
        ensures
            final(self).images@ == cache_after_insert(old(self).images@, img@),
            final(self).image_id == img.id,
            final(self).image_valid,
            final(self).image_sequence == next_sequence(old(self).image_sequence),
            final(self).x == old(self).x && final(self).y == old(self).y,
            final(self).valid == old(self).valid,
            final(self).sequence == old(self).sequence,
    {
        let id = img.id;
        self.images.insert(img);
        self.image_id = id;
        self.image_valid = true;
        self.image_sequence = bump_sequence(self.image_sequence);
    }

    /// The peer's `(x, y, sequence)` relative to a display origin, once a
    /// position is known.
    pub fn position_relative_to(&self, origin_x: i32, origin_y: i32) -> (r: Option<(i32, i32, u64)>)
        requires
            i32::MIN <= self.x - origin_x <= i32::MAX,
            i32::MIN <= self.y - origin_y <= i32::MAX,
        ensures
            r == (if self.valid {
                Some(((self.x - origin_x) as i32, (self.y - origin_y) as i32, self.sequence))
            } else {
                None
            }),
    {
        if !self.valid {
            return None;
        }
        Some((self.x - origin_x, self.y - origin_y, self.sequence))
    }

    /// The selected image and its sequence number, when one is selected and
    /// cached.
    pub fn selected_image(&self) -> (r: Option<(&RemoteCursorImage, u64)>)
        ensures
            match r {
                Some((img, seq)) => self.image_valid && self.images@.contains_key(self.image_id)
                    && img@ == self.images@[self.image_id] && seq == self.image_sequence,
                None => !self.image_valid || !self.images@.contains_key(self.image_id),
            },
    {
        if !self.image_valid {
            return None;
        }
        match self.images.get(self.image_id) {
            Some(img) => Some((img, self.image_sequence)),
            None => None,
        }
    }
}

/// Selects a cached cursor image by id; an id that is not cached changes
/// nothing. Returns whether it was cached.
pub fn select_remote_cursor_image(state: &mut CursorState, id: u64) -> (r: bool)
    ensures
        r == old(state).images@.contains_key(id),
        r ==> final(state).image_id == id && final(state).image_valid && final(state).image_sequence
            == next_sequence(old(state).image_sequence),
        !r ==> final(state).image_id == old(state).image_id && final(state).image_valid == old(
            state,
        ).image_valid && final(state).image_sequence == old(state).image_sequence,
        final(state).images@ == old(state).images@,
        final(state).x == old(state).x && final(state).y == old(state).y,
        final(state).valid == old(state).valid && final(state).sequence == old(state).sequence,
{
    if state.images.contains(id) {
        state.image_id = id;
        state.image_valid = true;
        state.image_sequence = bump_sequence(state.image_sequence);
        true
    } else {
        false
    }
}

/// How many pixel bytes the selected image has, as reported (capped at
/// `i32::MAX`), and whether a buffer of `capacity` bytes receives them.
pub fn cursor_colors_to_copy(len: usize, capacity: i32) -> (r: (i32, bool))
    ensures
        r.0 == (if len > i32::MAX {
            i32::MAX as int
        } else {
            len as int
        }),
        r.1 == (capacity >= r.0 && r.0 > 0),
{
    let required: i32 = if len > 2147483647usize {
        i32::MAX
    } else {
        len as i32
    };
    (required, capacity >= required && required > 0)
}

} // verus!
