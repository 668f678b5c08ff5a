//! The flat, id-keyed collection of layers of one canvas.
use vstd::prelude::*;

use vstd::string::StrSliceExecFns;

use crate::layer::{valid_name, Layer, LayerId, MAX_NAME_LEN};
use crate::linalg::mat3_diagonal;
use crate::opacity::ONE_BITS;

verus! {

/// Most layers that a tree holds at once.
pub const MAX_LAYERS: usize = 1000;

/// `a` is drawn before `b`: lower z-order first, then lower id.
pub open spec fn layer_before(a: Layer, b: Layer) -> bool {
    a.z_order < b.z_order || (a.z_order == b.z_order && a.id < b.id)
}

/// Whether `a` is drawn before `b`.
fn draws_before(a: &Layer, b: &Layer) -> (r: bool)
    ensures
        r == layer_before(*a, *b),
{
    a.z_order < b.z_order || (a.z_order == b.z_order && a.id < b.id)
}

/// Inserts `l` into the draw-ordered `out` where it belongs and returns its
/// position.
fn insert_in_draw_order<'a>(out: Vec<&'a Layer>, l: &'a Layer) -> (r: (Vec<&'a Layer>, usize))
    requires
        forall|a: int, b: int| 0 <= a < b < out@.len() ==> layer_before(*out@[a], *out@[b]),
        forall|i: int| 0 <= i < out@.len() ==> out@[i].id < l.id,
    ensures
        r.1 <= out@.len(),
        r.0@ == out@.insert(r.1 as int, l),
        forall|a: int, b: int| 0 <= a < b < r.0@.len() ==> layer_before(*r.0@[a], *r.0@[b]),
{
    let mut out = out;
    let ghost olds = out@;
    let mut pos: usize = 0;
    while pos < out.len() && !draws_before(l, out[pos])
        invariant
            out@ == olds,
            pos <= olds.len(),
            forall|i: int| 0 <= i < olds.len() ==> olds[i].id < l.id,
            forall|a: int| 0 <= a < pos ==> layer_before(*olds[a], *l),
        decreases olds.len() - pos,
    {
        pos += 1;
    }
    out.insert(pos, l);
    proof {
        let news = out@;
        assert forall|a: int, b: int| 0 <= a < b < news.len() implies layer_before(
            *news[a],
            *news[b],
        ) by {
            if b < pos {
                assert(news[a] == olds[a] && news[b] == olds[b]);
            } else if b == pos {
                assert(news[a] == olds[a]);
            } else if a <= pos {
                assert(pos < olds.len());
                assert(news[b] == olds[b - 1]);
                assert(layer_before(*l, *olds[pos as int]));
                if b - 1 > pos {
                    assert(layer_before(*olds[pos as int], *olds[b - 1]));
                }
                assert(layer_before(*l, *olds[b - 1]));
                if a < pos {
                    assert(news[a] == olds[a]);
                    assert(layer_before(*olds[a], *l));
                }
            } else {
                assert(news[a] == olds[a - 1] && news[b] == olds[b - 1]);
            }
        }
    }
    (out, pos)
}

/// `out` holds layers of `s` taken from the positions listed in `src`, all
/// below `j`, and every layer of the first `j` of `s`.
spec fn holds_prefix(s: Seq<Layer>, out: Seq<&Layer>, src: Seq<int>, j: int) -> bool {
    &&& src.len() == out.len()
    &&& forall|i: int| #![trigger src[i]]
        0 <= i < src.len() ==> 0 <= src[i] < j && *out[i] == s[src[i]]
    &&& forall|k: int| #![trigger s[k]]
        0 <= k < j ==> exists|i: int| 0 <= i < out.len() && *out[i] == s[k]
}

/// Inserting the `j`-th layer of `s` into a sequence that holds exactly the
/// layers before it gives one that holds exactly the first `j + 1`.
proof fn lemma_insert_keeps_members(
    s: Seq<Layer>,
    olds: Seq<&Layer>,
    src: Seq<int>,
    pos: int,
    l: &Layer,
    j: int,
)
    requires
        0 <= j < s.len(),
        0 <= pos <= olds.len(),
        *l == s[j],
        holds_prefix(s, olds, src, j),
    ensures
        holds_prefix(s, olds.insert(pos, l), src.insert(pos, j), j + 1),
{
    let news = olds.insert(pos, l);
    let nsrc = src.insert(pos, j);
    assert forall|i: int| #![trigger nsrc[i]] 0 <= i < nsrc.len() implies 0 <= nsrc[i] < j + 1
        && *news[i] == s[nsrc[i]] by {
        if i < pos {
            assert(nsrc[i] == src[i] && news[i] == olds[i]);
        } else if i > pos {
            assert(nsrc[i] == src[i - 1] && news[i] == olds[i - 1]);
        }
    }
    assert forall|k: int| #![trigger s[k]] 0 <= k < j + 1 implies exists|i: int|
        0 <= i < news.len() && *news[i] == s[k] by {
        if k < j {
            let i = choose|i: int| 0 <= i < olds.len() && *olds[i] == s[k];
            if i < pos {
                assert(news[i] == olds[i]);
            } else {
                assert(news[i + 1] == olds[i]);
            }
        } else {
            assert(*news[pos] == s[k]);
        }
    }
}

/// The ids of `s` increase strictly from first to last.
pub open spec fn ids_increasing(s: Seq<Layer>) -> bool {
    forall|i: int, j: int| 0 <= i < j < s.len() ==> s[i].id < s[j].id
}

/// The map from id to layer that a sequence of layers describes.
pub open spec fn layer_map(s: Seq<Layer>) -> Map<LayerId, Layer>
    decreases s.len(),
{
    if s.len() == 0 {
        Map::empty()
    } else {
        layer_map(s.drop_last()).insert(s.last().id, s.last())
    }
}

/// The layers of `s` in draw order, each taken from `m`, and all of them.
pub open spec fn is_draw_order(s: Seq<&Layer>, m: Map<LayerId, Layer>) -> bool {
    &&& forall|i: int| 0 <= i < s.len() ==> m.contains_key(s[i].id) && m[s[i].id] == *s[i]
    &&& forall|i: int, j: int| 0 <= i < j < s.len() ==> layer_before(*s[i], *s[j])
}

/// In draw order, layers that share a z-order appear by ascending id.
pub proof fn lemma_layers_equal_z_order_by_id(s: Seq<&Layer>, m: Map<LayerId, Layer>)
    requires
        is_draw_order(s, m),
    ensures
        forall|i: int, j: int|
            0 <= i < j < s.len() && s[i].z_order == s[j].z_order ==> s[i].id < s[j].id,
{
    assert forall|i: int, j: int|
        0 <= i < j < s.len() && s[i].z_order == s[j].z_order implies s[i].id < s[j].id by {
        assert(layer_before(*s[i], *s[j]));
    }
}

/// For a sequence with increasing ids, `layer_map` has exactly its ids as
/// keys, maps each to its layer, and has one entry per element.
proof fn lemma_layer_map(s: Seq<Layer>)
    requires
        ids_increasing(s),
    ensures
        layer_map(s).dom().finite(),
        layer_map(s).len() == s.len(),
        forall|k: LayerId| #[trigger]
            layer_map(s).contains_key(k) <==> exists|i: int| 0 <= i < s.len() && s[i].id == k,
        forall|i: int| 0 <= i < s.len() ==> #[trigger] layer_map(s)[s[i].id] == s[i],
    decreases s.len(),
{
    if s.len() > 0 {
        let p = s.drop_last();
        assert(ids_increasing(p));
        lemma_layer_map(p);
        let x = s.last();
        assert(!layer_map(p).contains_key(x.id)) by {
            if layer_map(p).contains_key(x.id) {
                let i = choose|i: int| 0 <= i < p.len() && p[i].id == x.id;
                assert(s[i].id < s[s.len() - 1].id);
            }
        }
        assert forall|k: LayerId| #[trigger]
            layer_map(s).contains_key(k) <==> exists|i: int| 0 <= i < s.len() && s[i].id == k by {
            if layer_map(p).contains_key(k) {
                let i = choose|i: int| 0 <= i < p.len() && p[i].id == k;
                assert(s[i].id == k);
            }
            if exists|i: int| 0 <= i < s.len() && s[i].id == k {
                let i = choose|i: int| 0 <= i < s.len() && s[i].id == k;
                if i < s.len() - 1 {
                    assert(p[i].id == k);
                }
            }
        }
        assert forall|i: int| 0 <= i < s.len() implies #[trigger] layer_map(s)[s[i].id] == s[i] by {
            if i < s.len() - 1 {
                assert(p[i] == s[i]);
                assert(s[i].id < x.id);
            }
        }
    }
}

/// Replacing a layer by one with the same id keeps the ids increasing and
/// replaces that entry of the map.
proof fn lemma_layer_map_update(s: Seq<Layer>, i: int, l: Layer)
    requires
        ids_increasing(s),
        0 <= i < s.len(),
        l.id == s[i].id,
    ensures
        ids_increasing(s.update(i, l)),
        layer_map(s.update(i, l)) == layer_map(s).insert(l.id, l),
{
    let t = s.update(i, l);
    assert(ids_increasing(t));
    lemma_layer_map(s);
    lemma_layer_map(t);
    assert forall|k: LayerId| #[trigger] layer_map(t).contains_key(k) <==> layer_map(s).insert(
        l.id,
        l,
    ).contains_key(k) by {
        if layer_map(t).contains_key(k) {
            let j = choose|j: int| 0 <= j < t.len() && t[j].id == k;
            assert(s[j].id == k);
        }
        if layer_map(s).contains_key(k) {
            let j = choose|j: int| 0 <= j < s.len() && s[j].id == k;
            assert(t[j].id == k);
        }
        assert(t[i].id == l.id);
    }
    assert forall|k: LayerId| #[trigger] layer_map(t).contains_key(k) implies layer_map(t)[k]
        == layer_map(s).insert(l.id, l)[k] by {
        let j = choose|j: int| 0 <= j < t.len() && t[j].id == k;
        if j != i {
            assert(s[j] == t[j]);
        }
    }
    assert(layer_map(t) =~= layer_map(s).insert(l.id, l));
}

/// The layers of one canvas, keyed by id, with ids handed out in increasing
/// order and never reused.
pub struct LayerTree {
    layers: Vec<Layer>,
    next_id: LayerId,
}

impl View for LayerTree {
    type V = Map<LayerId, Layer>;

    closed spec fn view(&self) -> Map<LayerId, Layer> {
        layer_map(self.layers@)
    }
}

impl LayerTree {
    /// The tree's invariant: layers ordered by id, every id below the next id
    /// to hand out, and at most `MAX_LAYERS` of them.
    pub closed spec fn wf(&self) -> bool {
        &&& ids_increasing(self.layers@)
        &&& self.layers@.len() <= MAX_LAYERS
        &&& 1 <= self.next_id
        &&& forall|i: int| 0 <= i < self.layers@.len() ==> self.layers@[i].id < self.next_id
    }

    /// The id that the next added layer receives.
    pub closed spec fn next_id_spec(&self) -> LayerId {
        self.next_id
    }

    /// What the invariant says of the map: it is finite, holds at most
    /// `MAX_LAYERS` layers, every key lies below the next id to hand out, and
    /// every layer carries its own key as id.
    pub proof fn lemma_view_bounds(&self)
        requires
            self.wf(),
        ensures
            self@.dom().finite(),
            self@.len() <= MAX_LAYERS,
            forall|k: LayerId| #[trigger] self@.contains_key(k) ==> k < self.next_id_spec(),
            forall|k: LayerId| #[trigger] self@.contains_key(k) ==> self@[k].id == k,
    {
        lemma_layer_map(self.layers@);
        assert forall|k: LayerId| #[trigger] self@.contains_key(k) implies k < self.next_id_spec()
            && self@[k].id == k by {
            let i = choose|i: int| 0 <= i < self.layers@.len() && self.layers@[i].id == k;
        }
    }

    /// An empty tree whose first layer gets id 1.
    pub fn new() -> (r: LayerTree)
        ensures
            r.wf(),
            r@ == Map::<LayerId, Layer>::empty(),
            r.next_id_spec() == 1,
    {
        LayerTree { layers: Vec::new(), next_id: 1 }
    }

    /// Position of the layer with id `id`, if there is one.
    fn find(&self, id: LayerId) -> (r: Option<usize>)
        requires
            self.wf(),
        ensures
            r.is_some() <==> self@.contains_key(id),
            r.is_some() ==> r.unwrap() < self.layers@.len() && self.layers@[r.unwrap() as int].id
                == id,
    {
        proof {
            lemma_layer_map(self.layers@);
        }
        let mut i: usize = 0;
        while i < self.layers.len()
            invariant
                self.wf(),
                i <= self.layers@.len(),
                forall|j: int| 0 <= j < i ==> self.layers@[j].id != id,
            decreases self.layers@.len() - i,
        {
            if self.layers[i].id == id {
                proof {
                    lemma_layer_map(self.layers@);
                    assert(self.layers@[i as int].id == id);
                }
                return Some(i);
            }
            i += 1;
        }
        None
    }

    /// Adds a visible, opaque layer named `name` and returns its id. Fails,
    /// leaving the tree unchanged, when the name is empty or longer than
    /// `MAX_NAME_LEN` characters, when the tree already holds `MAX_LAYERS`
    /// layers, or when the id space is used up.
    pub fn add_layer(&mut self, name: String) -> (r: Result<LayerId, String>)
        requires
            old(self).wf(),
        ensures
            final(self).wf(),
            r.is_ok() <==> valid_name(name@) && old(self)@.len() < MAX_LAYERS
                && old(self).next_id_spec() < u64::MAX,
            !valid_name(name@) ==> r.is_err() && r.unwrap_err()@ == "Invalid layer name"@,
            valid_name(name@) && r.is_err() ==> r.unwrap_err()@ == "Max layers reached"@,
            r.is_err() ==> *final(self) == *old(self),
            r.is_ok() ==> {
                let id = r.unwrap();
                &&& id == old(self).next_id_spec()
                &&& !old(self)@.contains_key(id)
                &&& final(self).next_id_spec() == id + 1
                &&& final(self)@.dom() == old(self)@.dom().insert(id)
                &&& forall|k: LayerId| #[trigger]
                    old(self)@.contains_key(k) ==> final(self)@[k] == old(self)@[k]
                &&& final(self)@[id].id == id
                &&& final(self)@[id].name@ == name@
                &&& final(self)@[id].visible
                &&& final(self)@[id].opacity@ == ONE_BITS
                &&& final(self)@[id].z_order == 0
                &&& final(self)@[id].transform == mat3_diagonal(ONE_BITS)
            },
    {
        proof {
            lemma_layer_map(self.layers@);
        }
        let name_len = name.as_str().unicode_len();
        if name_len == 0 || name_len > MAX_NAME_LEN {
            return Err("Invalid layer name".to_string());
        }
        if self.layers.len() >= MAX_LAYERS || self.next_id == u64::MAX {
            return Err("Max layers reached".to_string());
        }
        let id = self.next_id;
        self.next_id = id + 1;
        let layer = Layer::new(id, name);
        let ghost before = self.layers@;
        self.layers.push(layer);
        proof {
            assert(self.layers@.drop_last() == before);
            lemma_layer_map(self.layers@);
            if old(self)@.contains_key(id) {
                let i = choose|i: int| 0 <= i < before.len() && before[i].id == id;
            }
        }
        Ok(id)
    }

    /// The layer with id `id`, if there is one.
    pub fn get_layer(&self, id: LayerId) -> (r: Option<&Layer>)
        requires
            self.wf(),
        ensures
            r.is_some() <==> self@.contains_key(id),
            r.is_some() ==> *r.unwrap() == self@[id],
    {
        match self.find(id) {
            Some(i) => {
                proof {
                    lemma_layer_map(self.layers@);
                }
                Some(&self.layers[i])
            },
            None => None,
        }
    }

    /// The layer with id `id` for editing, if there is one. The tree keeps its
    /// invariant as long as the layer keeps its id.
    pub fn get_layer_mut(&mut self, id: LayerId) -> (r: Option<&mut Layer>)
        requires
            old(self).wf(),
        ensures
            r.is_some() <==> old(self)@.contains_key(id),
            r.is_none() ==> *final(self) == *old(self),
            r.is_some() ==> {
                &&& *r.unwrap() == old(self)@[id]
                &&& final(self).next_id_spec() == old(self).next_id_spec()
                &&& final(r.unwrap()).id == id ==> final(self).wf() && final(self)@ == old(self)@.insert(
                    id,
                    *final(r.unwrap()),
                )
            },
    {
        match self.find(id) {
            Some(i) => {
                proof {
                    lemma_layer_map(self.layers@);
                    assert forall|l: Layer| l.id == id implies ids_increasing(
                        self.layers@.update(i as int, l),
                    ) && layer_map(self.layers@.update(i as int, l)) == layer_map(
                        self.layers@,
                    ).insert(id, l) by {
                        lemma_layer_map_update(self.layers@, i as int, l);
                    }
                }
                Some(&mut self.layers[i])
            },
            None => None,
        }
    }

    /// Removes the layer with id `id`; reports whether there was one.
    pub fn remove_layer(&mut self, id: LayerId) -> (r: bool)
        requires
            old(self).wf(),
        ensures
            final(self).wf(),
            r == old(self)@.contains_key(id),
            final(self)@ == old(self)@.remove(id),
            final(self).next_id_spec() == old(self).next_id_spec(),
    {
        match self.find(id) {
            Some(i) => {
                let ghost before = self.layers@;
                self.layers.remove(i);
                proof {
                    lemma_layer_map(before);
                    lemma_layer_map(self.layers@);
                    assert(self@ =~= old(self)@.remove(id)) by {
                        assert forall|k: LayerId| #[trigger] self@.contains_key(k)
                            <==> old(self)@.remove(id).contains_key(k) by {
                            if self@.contains_key(k) {
                                let j = choose|j: int|
                                    0 <= j < self.layers@.len() && self.layers@[j].id == k;
                                if j < i {
                                    assert(before[j].id == k);
                                } else {
                                    assert(before[j + 1].id == k);
                                }
                            }
                            if old(self)@.remove(id).contains_key(k) {
                                let j = choose|j: int| 0 <= j < before.len() && before[j].id == k;
                                if j < i {
                                    assert(self.layers@[j].id == k);
                                } else {
                                    assert(self.layers@[j - 1].id == k);
                                }
                            }
                        }
                        assert forall|k: LayerId| #[trigger] self@.contains_key(k) implies self@[k]
                            == old(self)@.remove(id)[k] by {
                            let j = choose|j: int|
                                0 <= j < self.layers@.len() && self.layers@[j].id == k;
                            if j < i {
                                assert(before[j] == self.layers@[j]);
                            } else {
                                assert(before[j + 1] == self.layers@[j]);
                            }
                        }
                    }
                }
                true
            },
            None => {
                proof {
                    assert(self@ =~= old(self)@.remove(id));
                }
                false
            },
        }
    }

    /// All layers in draw order: by z-order, then by id.
    pub fn get_sorted_layers(&self) -> (r: Vec<&Layer>)
        requires
            self.wf(),
        ensures
            is_draw_order(r@, self@),
            r@.len() == self@.len(),
            forall|k: LayerId| #[trigger]
                self@.contains_key(k) ==> exists|i: int| 0 <= i < r@.len() && r@[i].id == k,
    {
        proof {
            lemma_layer_map(self.layers@);
        }
        let mut out: Vec<&Layer> = Vec::new();
        let ghost mut src: Seq<int> = Seq::empty();
        let mut j: usize = 0;
        while j < self.layers.len()
            invariant
                ids_increasing(self.layers@),
                j <= self.layers@.len(),
                out@.len() == j,
                holds_prefix(self.layers@, out@, src, j as int),
                forall|a: int, b: int| 0 <= a < b < out@.len() ==> layer_before(*out@[a], *out@[b]),
            decreases self.layers@.len() - j,
        {
            let l = &self.layers[j];
            let ghost olds = out@;
            proof {
                assert forall|i: int| 0 <= i < olds.len() implies olds[i].id < l.id by {
                    assert(src[i] < j);
                }
            }
            let (grown, pos) = insert_in_draw_order(out, l);
            out = grown;
            proof {
                lemma_insert_keeps_members(self.layers@, olds, src, pos as int, l, j as int);
                src = src.insert(pos as int, j as int);
            }
            j += 1;
        }
        proof {
            lemma_layer_map(self.layers@);
            assert forall|i: int| 0 <= i < out@.len() implies self@.contains_key(out@[i].id)
                && self@[out@[i].id] == *out@[i] by {
                assert(*out@[i] == self.layers@[src[i]]);
            }
            assert forall|k: LayerId| #[trigger] self@.contains_key(k) implies exists|i: int|
                0 <= i < out@.len() && out@[i].id == k by {
                let m = choose|m: int| 0 <= m < self.layers@.len() && self.layers@[m].id == k;
                let i = choose|i: int| 0 <= i < out@.len() && *out@[i] == self.layers@[m];
            }
        }
        out
    }

    /// The layers that are drawn, in draw order.
    pub fn get_renderable(&self) -> (r: Vec<&Layer>)
        requires
            self.wf(),
        ensures
            is_draw_order(r@, self@),
            forall|i: int| 0 <= i < r@.len() ==> r@[i].renderable(),
            forall|k: LayerId| #[trigger]
                self@.contains_key(k) && self@[k].renderable() ==> exists|i: int|
                    0 <= i < r@.len() && r@[i].id == k,
    {
        let sorted = self.get_sorted_layers();
        let mut out: Vec<&Layer> = Vec::new();
        let mut i: usize = 0;
        while i < sorted.len()
            invariant
                is_draw_order(sorted@, self@),
                i <= sorted@.len(),
                is_draw_order(out@, self@),
                forall|a: int| 0 <= a < out@.len() ==> out@[a].renderable(),
                forall|a: int, c: int|
                    0 <= a < out@.len() && i <= c < sorted@.len() ==> layer_before(
                        *out@[a],
                        *sorted@[c],
                    ),
                forall|b: int| #![trigger sorted@[b]]
                    0 <= b < i && sorted@[b].renderable() ==> exists|a: int|
                        0 <= a < out@.len() && out@[a] == sorted@[b],
            decreases sorted@.len() - i,
        {
            let l = sorted[i];
            if l.is_renderable() {
                let ghost olds = out@;
                out.push(l);
                proof {
                    assert forall|b: int| #![trigger sorted@[b]]
                        0 <= b < i + 1 && sorted@[b].renderable() implies exists|a: int|
                        0 <= a < out@.len() && out@[a] == sorted@[b] by {
                        if b < i {
                            let a = choose|a: int| 0 <= a < olds.len() && olds[a] == sorted@[b];
                            assert(out@[a] == olds[a]);
                        } else {
                            assert(out@[olds.len() as int] == sorted@[b]);
                        }
                    }
                }
            }
            i += 1;
        }
        proof {
            assert forall|k: LayerId| #[trigger] self@.contains_key(k) && self@[k].renderable()
                implies exists|a: int| 0 <= a < out@.len() && out@[a].id == k by {
                let b = choose|b: int| 0 <= b < sorted@.len() && sorted@[b].id == k;
                let a = choose|a: int| 0 <= a < out@.len() && out@[a] == sorted@[b];
            }
        }
        out
    }

    /// Number of layers.
    pub fn len(&self) -> (r: usize)
        requires
            self.wf(),
        ensures
            r == self@.len(),
    {
        proof {
            lemma_layer_map(self.layers@);
        }
        self.layers.len()
    }

    /// Whether the tree holds no layer.
    pub fn is_empty(&self) -> (r: bool)
        requires
            self.wf(),
        ensures
            r == (self@.len() == 0),
    {
        proof {
            lemma_layer_map(self.layers@);
        }
        self.layers.len() == 0
    }

    /// Removes every layer. Ids already handed out are not handed out again.
    pub fn clear(&mut self)
        requires
            old(self).wf(),
        ensures
            final(self).wf(),
            final(self)@ == Map::<LayerId, Layer>::empty(),
            final(self).next_id_spec() == old(self).next_id_spec(),
    {
        self.layers.clear();
    }
}

impl Default for LayerTree {
    fn default() -> (r: LayerTree)
        ensures
            r.wf(),
            r@ == Map::<LayerId, Layer>::empty(),
            r.next_id_spec() == 1,
    {
        LayerTree::new()
    }
}

} // verus!
