use vstd::prelude::*;
use std::collections::hash_map::DefaultHasher;
use std::hash::{Hash, Hasher};
use crate::runtime::memory::types::{Type, has_name};
use crate::program::errors::runtime::{
    var_not_found, var_already_exists, wrong_type, var_not_found_msg, var_already_exists_msg,
    wrong_type_msg,
};

verus! {

/// The hash of the text `s` under a `DefaultHasher` made by
/// `DefaultHasher::new` (whose instances are all alike).
pub uninterp spec fn string_hash(s: Seq<char>) -> u64;

/// A variable in a frame: where its value lies, its type, and whether it was
/// given a value.
#[derive(Debug)]
pub struct StackVariable {
    pub offset: usize,
    pub vtype: Type,
    pub initialized: bool,
}

/// The variables of a frame, keyed by the hashes of their names and kept
/// sorted by them.
#[derive(Debug)]
pub struct StackHashMap {
    pub vec: Vec<(u64, StackVariable)>,
}

/// Whether the entries are sorted by hash.
pub open spec fn sorted(s: Seq<(u64, StackVariable)>) -> bool {
    forall|i: int, j: int| 0 <= i <= j < s.len() ==> #[trigger] s[i].0 <= #[trigger] s[j].0
}

/// The first index at or after `i` whose hash is greater than `h`, or the
/// length.
pub open spec fn first_greater(s: Seq<(u64, StackVariable)>, h: u64, i: int) -> int
    decreases s.len() - i,
{
    if i < 0 || i >= s.len() {
        s.len() as int
    } else if s[i].0 > h {
        i
    } else {
        first_greater(s, h, i + 1)
    }
}

/// Where an entry with hash `h` is inserted: after all entries with a hash
/// not greater than `h`.
pub open spec fn insert_pos(s: Seq<(u64, StackVariable)>, h: u64) -> int {
    first_greater(s, h, 0)
}

/// Binary search for `target` among the entries `left..=right`.
pub open spec fn bsearch(s: Seq<(u64, StackVariable)>, target: u64, left: int, right: int) -> Option<int>
    decreases right - left + 1,
{
    if left > right || left < 0 || right >= s.len() {
        None
    } else {
        let mid = left + (right - left) / 2;
        if s[mid].0 == target {
            Some(mid)
        } else if s[mid].0 < target {
            bsearch(s, target, mid + 1, right)
        } else {
            bsearch(s, target, left, mid - 1)
        }
    }
}

/// The index of an entry with hash `target`, as the binary search finds it.
pub open spec fn find(s: Seq<(u64, StackVariable)>, target: u64) -> Option<int> {
    bsearch(s, target, 0, s.len() - 1)
}

pub proof fn lemma_first_greater(s: Seq<(u64, StackVariable)>, h: u64, i: int)
    requires
        0 <= i <= s.len(),
        sorted(s),
        forall|k: int| 0 <= k < i ==> #[trigger] s[k].0 <= h,
    ensures
        i <= first_greater(s, h, i) <= s.len(),
        forall|k: int| 0 <= k < first_greater(s, h, i) ==> #[trigger] s[k].0 <= h,
        forall|k: int| first_greater(s, h, i) <= k < s.len() ==> #[trigger] s[k].0 > h,
    decreases s.len() - i,
{
    if i < s.len() {
        if s[i].0 > h {
            assert forall|k: int| i <= k < s.len() implies #[trigger] s[k].0 > h by {
                assert(s[i].0 <= s[k].0);
            }
        } else {
            lemma_first_greater(s, h, i + 1);
        }
    }
}

/// Inserting at `insert_pos` keeps the entries sorted.
pub proof fn lemma_insert_sorted(s: Seq<(u64, StackVariable)>, h: u64, v: StackVariable)
    requires
        sorted(s),
    ensures
        0 <= insert_pos(s, h) <= s.len(),
        sorted(s.insert(insert_pos(s, h), (h, v))),
{
    lemma_first_greater(s, h, 0);
    let p = insert_pos(s, h);
    let t = s.insert(p, (h, v));
    assert forall|i: int, j: int| 0 <= i <= j < t.len() implies #[trigger] t[i].0 <= #[trigger] t[j].0 by {
        if i < p && j < p {
            assert(s[i].0 <= s[j].0);
        } else if i < p && j == p {
            assert(s[i].0 <= h);
        } else if i < p {
            assert(s[i].0 <= s[j - 1].0);
        } else if i == p && j > p {
            assert(s[j - 1].0 > h);
        } else if i > p {
            assert(s[i - 1].0 <= s[j - 1].0);
        }
    }
}

/// The binary search finds an entry with the hash exactly when there is one.
pub proof fn lemma_bsearch(s: Seq<(u64, StackVariable)>, target: u64, left: int, right: int)
    requires
        sorted(s),
        0 <= left,
        right < s.len(),
    ensures
        bsearch(s, target, left, right) matches Some(i) ==> left <= i <= right && s[i].0 == target,
        bsearch(s, target, left, right) is None ==> forall|k: int| left <= k <= right ==> #[trigger] s[k].0 != target,
    decreases right - left + 1,
{
    if left <= right {
        let mid = left + (right - left) / 2;
        if s[mid].0 == target {
        } else if s[mid].0 < target {
            lemma_bsearch(s, target, mid + 1, right);
            assert forall|k: int| left <= k <= mid implies #[trigger] s[k].0 != target by {
                assert(s[k].0 <= s[mid].0);
            }
        } else {
            lemma_bsearch(s, target, left, mid - 1);
            assert forall|k: int| mid <= k <= right implies #[trigger] s[k].0 != target by {
                assert(s[mid].0 <= s[k].0);
            }
        }
    }
}

pub proof fn lemma_bsearch_found(s: Seq<(u64, StackVariable)>, target: u64, left: int, right: int)
    ensures
        bsearch(s, target, left, right) matches Some(i) ==> left <= i <= right && 0 <= i < s.len()
            && s[i].0 == target,
    decreases right - left + 1,
{
    if left <= right && left >= 0 && right < s.len() {
        let mid = left + (right - left) / 2;
        if s[mid].0 == target {
        } else if s[mid].0 < target {
            lemma_bsearch_found(s, target, mid + 1, right);
        } else {
            lemma_bsearch_found(s, target, left, mid - 1);
        }
    }
}

/// `find` gives an entry with the hash exactly when there is one.
pub proof fn lemma_find(s: Seq<(u64, StackVariable)>, target: u64)
    requires
        sorted(s),
    ensures
        find(s, target) matches Some(i) ==> 0 <= i < s.len() && s[i].0 == target,
        find(s, target) is None <==> forall|k: int| 0 <= k < s.len() ==> #[trigger] s[k].0 != target,
{
    lemma_bsearch(s, target, 0, s.len() - 1);
}

impl StackHashMap {
    pub fn new() -> (m: Self)
        ensures
            m.vec@ == Seq::<(u64, StackVariable)>::empty(),
    {
        StackHashMap { vec: Vec::new() }
    }

    /// Calls `Hash::hash` for `String` on a fresh `DefaultHasher::new()` and
    /// `Hasher::finish`. Its contract claims only that the result is a
    /// function of the text, named `string_hash`; the hash function is not
    /// stated.
    #[verifier::external_body]
    fn hash(str: String) -> (h: u64)
        ensures
            h == string_hash(str@),
    {
        let hasher = &mut DefaultHasher::new();
        str.hash(hasher);
        hasher.finish()
    }

    /// Adds `value` under the hash of `key`, after the entries whose hash is
    /// not greater, so that the entries stay sorted.
    pub fn push(&mut self, key: &String, value: StackVariable)
        ensures
            final(self).vec@ == old(self).vec@.insert(
                first_greater(old(self).vec@, string_hash(key@), 0),
                (string_hash(key@), value),
            ),
    {
        let hashed = StackHashMap::hash(key.clone());
        let mut pos: usize = 0;
        let ghost s = self.vec@;
        loop
            invariant
                self.vec@ == s,
                s == old(self).vec@,
                hashed == string_hash(key@),
                pos <= s.len(),
                first_greater(s, hashed, 0) == first_greater(s, hashed, pos as int),
            decreases s.len() - pos,
        {
            if pos >= self.vec.len() {
                self.vec.insert(pos, (hashed, value));
                return;
            } else if self.vec[pos].0 > hashed {
                self.vec.insert(pos, (hashed, value));
                return;
            } else {
                pos = pos + 1;
            }
        }
    }

    /// The index of the entry for `key`: the binary search for its hash.
    pub fn get(&self, key: &String) -> (r: Option<usize>)
        ensures
            r == (match find(self.vec@, string_hash(key@)) {
                Some(i) => Some(i as usize),
                None => None::<usize>,
            }),
    {
        proof { lemma_bsearch_found(self.vec@, string_hash(key@), 0, self.vec@.len() - 1); }
        if self.vec.len() == 0 {
            return None;
        }
        let target = StackHashMap::hash(key.clone());
        let mut left: usize = 0;
        let mut right_end: usize = self.vec.len();
        while left < right_end
            invariant
                target == string_hash(key@),
                left <= right_end <= self.vec@.len(),
                find(self.vec@, target) == bsearch(self.vec@, target, left as int, right_end - 1),
            decreases right_end - left,
        {
            let mid = left + (right_end - 1 - left) / 2;
            if self.vec[mid].0 == target {
                return Some(mid);
            } else if self.vec[mid].0 < target {
                left = mid + 1;
            } else {
                right_end = mid;
            }
        }
        None
    }
}

/// After `push`, the entries stay sorted.
pub proof fn law_push_keeps_sorted(s: Seq<(u64, StackVariable)>, key: Seq<char>, v: StackVariable)
    requires
        sorted(s),
    ensures
        sorted(s.insert(first_greater(s, string_hash(key), 0), (string_hash(key), v))),
{
    lemma_insert_sorted(s, string_hash(key), v);
}

/// After `push` of a key whose hash the map does not hold yet, `get` of that
/// key finds the pushed variable.
pub proof fn law_get_after_push(s: Seq<(u64, StackVariable)>, key: Seq<char>, v: StackVariable)
    requires
        sorted(s),
        forall|k: int| 0 <= k < s.len() ==> #[trigger] s[k].0 != string_hash(key),
    ensures
        ({
            let h = string_hash(key);
            let p = first_greater(s, h, 0);
            let t = s.insert(p, (h, v));
            &&& find(t, h) == Some(p)
            &&& t[p].1 == v
        }),
{
    let h = string_hash(key);
    lemma_insert_sorted(s, h, v);
    let p = first_greater(s, h, 0);
    let t = s.insert(p, (h, v));
    assert(t[p].0 == h);
    lemma_find(t, h);
    let i = find(t, h)->0;
    if i != p {
        if i < p {
            assert(t[i] == s[i]);
        } else {
            assert(t[i] == s[i - 1]);
        }
    }
}

/// `push` does not change what `get` finds for a hash that the map holds
/// once and that differs from the pushed one.
pub proof fn law_push_keeps_others(s: Seq<(u64, StackVariable)>, key: Seq<char>, v: StackVariable, other: u64, i: int)
    requires
        sorted(s),
        0 <= i < s.len(),
        s[i].0 == other,
        other != string_hash(key),
        forall|k: int| 0 <= k < s.len() && k != i ==> #[trigger] s[k].0 != other,
    ensures
        ({
            let h = string_hash(key);
            let t = s.insert(first_greater(s, h, 0), (h, v));
            find(t, other) matches Some(j) && t[j] == s[i]
        }),
{
    let h = string_hash(key);
    lemma_insert_sorted(s, h, v);
    let p = first_greater(s, h, 0);
    let t = s.insert(p, (h, v));
    let j0 = if i < p { i } else { i + 1 };
    assert(t[j0] == s[i]);
    lemma_find(t, other);
    let j = find(t, other)->0;
    if j != j0 {
        if j < p {
            assert(t[j] == s[j]);
        } else if j > p {
            assert(t[j] == s[j - 1]);
        }
    }
}

/// A variable to reserve in a frame: its type and its name.
#[derive(Clone, Debug)]
pub struct VarInfo {
    pub vtype: Type,
    pub name: String,
}

/// The entries that a frame gets for the reservations `r[..n]`: each in turn
/// is pushed, uninitialised, at the next offset.
pub open spec fn alloc_entries(r: Seq<VarInfo>, n: nat) -> Seq<(u64, StackVariable)>
    decreases n,
{
    if n == 0 {
        Seq::empty()
    } else {
        let prev = alloc_entries(r, (n - 1) as nat);
        let info = r[n - 1];
        let h = string_hash(info.name@);
        prev.insert(
            first_greater(prev, h, 0),
            (h, StackVariable { offset: (n - 1) as usize, vtype: info.vtype, initialized: false }),
        )
    }
}

/// A frame of variables, with the frame it was opened from.
pub struct GlkStack<V> {
    size: usize,
    offsets: StackHashMap,
    slots: Vec<Option<V>>,
    parent: Option<Box<GlkStack<V>>>,
}

/// Where a variable's value lies: how many frames up, and at which offset.
pub type VarLoc = (usize, usize);

/// The frame (counted from `d`) and the index of the entry that hash `h`
/// resolves to: the first frame that holds it.
pub open spec fn resolve(frames: Seq<Seq<(u64, StackVariable)>>, h: u64, d: int) -> Option<(int, int)>
    decreases frames.len() - d,
{
    if d < 0 || d >= frames.len() {
        None
    } else {
        match find(frames[d], h) {
            Some(i) => Some((d, i)),
            None => resolve(frames, h, d + 1),
        }
    }
}

/// What looking a variable up gives: where it lies and its type, or the
/// message of the error. A declaration (`init == false`) asks for a variable
/// not yet initialised, a use (`init == true`) for an initialised one;
/// `expected` is the type asked for, if any.
pub open spec fn lookup_result(
    frames: Seq<Seq<(u64, StackVariable)>>,
    name: Seq<char>,
    expected: Option<Type>,
    init: bool,
) -> Result<(int, int, Type), Seq<char>> {
    match resolve(frames, string_hash(name), 0) {
        None => Err(var_not_found_msg(name)),
        Some((d, i)) => {
            let e = frames[d][i].1;
            if init && !e.initialized {
                Err(var_not_found_msg(name))
            } else if !init && e.initialized {
                Err(var_already_exists_msg(name))
            } else if expected is Some && e.vtype != expected->0 {
                Err(wrong_type_msg(name, expected->0, e.vtype))
            } else {
                Ok((d, e.offset as int, e.vtype))
            }
        },
    }
}

/// The frames after a lookup: a successful declaration marks the variable
/// initialised.
pub open spec fn lookup_frames(
    frames: Seq<Seq<(u64, StackVariable)>>,
    name: Seq<char>,
    expected: Option<Type>,
    init: bool,
) -> Seq<Seq<(u64, StackVariable)>> {
    match (lookup_result(frames, name, expected, init), resolve(frames, string_hash(name), 0)) {
        (Ok(_), Some((d, i))) => if !init {
            let e = frames[d][i];
            frames.update(
                d,
                frames[d].update(
                    i,
                    (e.0, StackVariable { offset: e.1.offset, vtype: e.1.vtype, initialized: true }),
                ),
            )
        } else {
            frames
        },
        _ => frames,
    }
}

/// Whether a lookup with type `expected` meets a variable of another type
/// that has no name, or asks for a type that has none, where the message of
/// the mismatch would have to name it.
pub open spec fn lookup_names_ok(
    frames: Seq<Seq<(u64, StackVariable)>>,
    name: Seq<char>,
    expected: Type,
    init: bool,
) -> bool {
    match resolve(frames, string_hash(name), 0) {
        None => true,
        Some((d, i)) => {
            let e = frames[d][i].1;
            (init && !e.initialized) || (!init && e.initialized) || e.vtype == expected || (
            has_name(expected) && has_name(e.vtype))
        },
    }
}

impl<V> GlkStack<V> {
    /// The entries of each frame, from this one up to the outermost.
    pub closed spec fn frames(&self) -> Seq<Seq<(u64, StackVariable)>>
        decreases self,
    {
        seq![self.offsets.vec@] + match &self.parent {
            Some(p) => p.frames(),
            None => Seq::empty(),
        }
    }

    /// The values of each frame, from this one up to the outermost.
    pub closed spec fn values(&self) -> Seq<Seq<Option<V>>>
        decreases self,
    {
        seq![self.slots@] + match &self.parent {
            Some(p) => p.values(),
            None => Seq::empty(),
        }
    }

    /// The internal invariant: each frame has one value slot per variable
    /// and its entries sorted, and the chain is short enough to count.
    pub closed spec fn wf(&self) -> bool
        decreases self,
    {
        &&& self.slots@.len() == self.size
        &&& self.offsets.vec@.len() == self.size
        &&& sorted(self.offsets.vec@)
        &&& forall|k: int| 0 <= k < self.size ==> #[trigger] self.offsets.vec@[k].1.offset < self.size
        &&& match &self.parent {
            Some(p) => p.wf(),
            None => true,
        }
    }
}

pub open spec fn shift(r: Option<(int, int)>) -> Option<(int, int)> {
    match r {
        Some((d, i)) => Some((d + 1, i)),
        None => None,
    }
}

pub proof fn lemma_resolve_shift(x: Seq<(u64, StackVariable)>, r: Seq<Seq<(u64, StackVariable)>>, h: u64, d: int)
    requires
        0 <= d,
    ensures
        resolve(seq![x] + r, h, d + 1) == shift(resolve(r, h, d)),
    decreases r.len() - d,
{
    let f = seq![x] + r;
    if d < r.len() {
        assert(f[d + 1] == r[d]);
        lemma_resolve_shift(x, r, h, d + 1);
    }
}

pub proof fn lemma_resolve_bounds(frames: Seq<Seq<(u64, StackVariable)>>, h: u64, d: int)
    requires
        0 <= d,
    ensures
        resolve(frames, h, d) matches Some((e, i)) ==> d <= e < frames.len() && find(frames[e], h) == Some(i)
            && 0 <= i < frames[e].len() && frames[e][i].0 == h,
    decreases frames.len() - d,
{
    if d < frames.len() {
        lemma_bsearch_found(frames[d], h, 0, frames[d].len() - 1);
        lemma_resolve_bounds(frames, h, d + 1);
    }
}

/// Looking up in a chain whose first frame lacks the name is looking up in
/// the rest, one frame further.
pub proof fn lemma_lookup_cons(
    x: Seq<(u64, StackVariable)>,
    r: Seq<Seq<(u64, StackVariable)>>,
    name: Seq<char>,
    expected: Option<Type>,
    init: bool,
)
    requires
        find(x, string_hash(name)) is None,
    ensures
        lookup_result(seq![x] + r, name, expected, init) == match lookup_result(r, name, expected, init) {
            Ok((d, o, t)) => Ok((d + 1, o, t)),
            Err(m) => Err(m),
        },
        lookup_frames(seq![x] + r, name, expected, init) == seq![x] + lookup_frames(r, name, expected, init),
        resolve(seq![x] + r, string_hash(name), 0) == shift(resolve(r, string_hash(name), 0)),
        forall|t: Type| lookup_names_ok(seq![x] + r, name, t, init) == lookup_names_ok(r, name, t, init),
        lookup_result(r, name, expected, init) matches Ok((d, o, t)) ==> 0 <= d < r.len(),
{
    let h = string_hash(name);
    let f = seq![x] + r;
    assert(f[0] == x);
    lemma_resolve_shift(x, r, h, 0);
    lemma_resolve_bounds(r, h, 0);
    assert(resolve(f, h, 0) == resolve(f, h, 1));
    match resolve(r, h, 0) {
        Some((d, i)) => {
            assert(f[d + 1] == r[d]);
            assert(f[d + 1][i] == r[d][i]);
            let e = r[d][i];
            let nf = r.update(d, r[d].update(i, (e.0, StackVariable { offset: e.1.offset, vtype: e.1.vtype, initialized: true })));
            assert(f.update(d + 1, f[d + 1].update(i, (e.0, StackVariable { offset: e.1.offset, vtype: e.1.vtype, initialized: true }))) =~= seq![x] + nf);
        },
        None => {},
    }
}

pub proof fn lemma_resolve_first(x: Seq<(u64, StackVariable)>, r: Seq<Seq<(u64, StackVariable)>>, h: u64)
    requires
        find(x, h) is Some,
    ensures
        resolve(seq![x] + r, h, 0) == Some((0int, find(x, h)->0)),
{
    assert((seq![x] + r)[0] == x);
}

impl<V> GlkStack<V> {
    /// The frame that this one was opened from.
    pub closed spec fn parent_frame(&self) -> Option<Box<GlkStack<V>>> {
        self.parent
    }

    /// The frames outside this one.
    pub open spec fn outer_frames(parent: Option<Box<GlkStack<V>>>) -> Seq<Seq<(u64, StackVariable)>> {
        match parent {
            Some(p) => p.frames(),
            None => Seq::empty(),
        }
    }

    /// The values outside this frame.
    pub open spec fn outer_values(parent: Option<Box<GlkStack<V>>>) -> Seq<Seq<Option<V>>> {
        match parent {
            Some(p) => p.values(),
            None => Seq::empty(),
        }
    }

    /// Whether `parent` is a frame in which a frame can be opened.
    pub open spec fn parent_ok(parent: Option<Box<GlkStack<V>>>) -> bool {
        match parent {
            Some(p) => p.wf(),
            None => true,
        }
    }

    proof fn lemma_frames(&self)
        ensures
            self.frames().len() >= 1,
            self.frames()[0] == self.offsets.vec@,
            self.frames() == seq![self.offsets.vec@] + match &self.parent {
                Some(p) => p.frames(),
                None => Seq::empty(),
            },
            self.values().len() == self.frames().len(),
            self.values()[0] == self.slots@,
            self.values() == seq![self.slots@] + match &self.parent {
                Some(p) => p.values(),
                None => Seq::empty(),
            },
        decreases self,
    {
        match &self.parent {
            Some(p) => p.lemma_frames(),
            None => {},
        }
    }

    /// Opens a frame for the variables `reserve`, each uninitialised, at
    /// offsets 0, 1, ... in order, inside the frame `parent`.
    pub fn allocate(reserve: &Vec<VarInfo>, parent: Option<Box<GlkStack<V>>>) -> (st: GlkStack<V>)
        requires
            Self::parent_ok(parent),
        ensures
            st.wf(),
            st.parent_frame() == parent,
            st.frames() == seq![alloc_entries(reserve@, reserve@.len())] + Self::outer_frames(parent),
            st.values() == seq![Seq::new(reserve@.len(), |k: int| None::<V>)] + Self::outer_values(parent),
    {
        let mut size: usize = 0;
        let mut offsets = StackHashMap::new();
        let mut slots: Vec<Option<V>> = Vec::new();
        while size < reserve.len()
            invariant
                size <= reserve@.len(),
                offsets.vec@ == alloc_entries(reserve@, size as nat),
                sorted(offsets.vec@),
                offsets.vec@.len() == size,
                slots@.len() == size,
                forall|k: int| 0 <= k < size ==> #[trigger] slots@[k] is None,
                forall|k: int| 0 <= k < size ==> #[trigger] offsets.vec@[k].1.offset < size,
            decreases reserve@.len() - size,
        {
            let reservation = &reserve[size];
            let ghost prev = offsets.vec@;
            let ghost sv = StackVariable { offset: size, vtype: reservation.vtype, initialized: false };
            proof {
                lemma_insert_sorted(prev, string_hash(reservation.name@), sv);
            }
            offsets.push(
                &reservation.name,
                StackVariable { offset: size, vtype: reservation.vtype, initialized: false },
            );
            slots.push(None);
            let ghost p = first_greater(prev, string_hash(reservation.name@), 0);
            assert(offsets.vec@ == prev.insert(p, (string_hash(reservation.name@), sv)));
            assert forall|k: int| 0 <= k < size + 1 implies #[trigger] offsets.vec@[k].1.offset < size + 1 by {
                if k == p {
                    assert(offsets.vec@[k] == (string_hash(reservation.name@), sv));
                } else if k < p {
                    assert(offsets.vec@[k] == prev[k]);
                    assert(prev[k].1.offset < size);
                } else {
                    assert(offsets.vec@[k] == prev[k - 1]);
                    assert(prev[k - 1].1.offset < size);
                }
            }
            size = size + 1;
        }
        let st = GlkStack { size, offsets, slots, parent };
        proof {
            st.lemma_frames();
            assert(st.slots@ =~= Seq::new(reserve@.len(), |k: int| None::<V>));
        }
        st
    }

    /// Closes the frame and hands back the frame it was opened from.
    pub fn nahuy(self) -> (parent: Option<Box<GlkStack<V>>>)
        ensures
            parent == self.parent_frame(),
    {
        self.parent
    }

    /// Looks a variable up, from this frame outward: where its value lies and
    /// its type. A declaration (`expected_init_status == false`) asks for a
    /// variable not yet initialised and marks it initialised; a use asks for
    /// an initialised one. With `expected_type`, the variable must have that
    /// type.
    fn lookup(&mut self, name: &String, expected_type: Option<Type>, expected_init_status: bool) -> (r: Result<
        (usize, usize, Type),
        String,
    >)
        requires
            old(self).wf(),
            old(self).frames().len() <= usize::MAX,
            expected_type matches Some(t) ==> lookup_names_ok(old(self).frames(), name@, t, expected_init_status),
        ensures
            final(self).wf(),
            final(self).values() == old(self).values(),
            final(self).frames() == lookup_frames(old(self).frames(), name@, expected_type, expected_init_status),
            match lookup_result(old(self).frames(), name@, expected_type, expected_init_status) {
                Ok((d, o, t)) => r == Ok::<(usize, usize, Type), String>((d as usize, o as usize, t)),
                Err(m) => r matches Err(e) && e@ == m,
            },
        decreases old(self).frames().len(),
    {
        proof { self.lemma_frames(); }
        let ghost old_frames = self.frames();
        let ghost h = string_hash(name@);
        match self.offsets.get(name) {
            Some(i) => {
                proof {
                    lemma_find(self.offsets.vec@, h);
                    let rest = match &self.parent { Some(p) => p.frames(), None => Seq::empty() };
                    lemma_resolve_first(self.offsets.vec@, rest, h);
                }
                let initialized = self.offsets.vec[i].1.initialized;
                let vtype = self.offsets.vec[i].1.vtype;
                let offset = self.offsets.vec[i].1.offset;
                if expected_init_status == true && initialized == false {
                    return Err(var_not_found(name));
                }
                if expected_init_status == false && initialized == true {
                    return Err(var_already_exists(name));
                }
                match expected_type {
                    Some(t) => {
                        if vtype != t {
                            return Err(wrong_type(name, &t, &vtype));
                        }
                    },
                    None => {},
                }
                if expected_init_status == false {
                    let ghost before = self.offsets.vec@;
                    let key = self.offsets.vec[i].0;
                    self.offsets.vec.set(i, (key, StackVariable { offset, vtype, initialized: true }));
                    proof {
                        assert forall|a: int, b: int| 0 <= a <= b < self.offsets.vec@.len() implies #[trigger] self.offsets.vec@[a].0 <= #[trigger] self.offsets.vec@[b].0 by {
                            assert(before[a].0 <= before[b].0);
                        }
                        assert forall|k: int| 0 <= k < self.size implies #[trigger] self.offsets.vec@[k].1.offset < self.size by {
                            assert(before[k].1.offset < self.size);
                        }
                    }
                }
                proof {
                    self.lemma_frames();
                    assert(self.frames() =~= lookup_frames(old_frames, name@, expected_type, expected_init_status));
                }
                Ok((0, offset, vtype))
            },
            None => {
                proof { lemma_find(self.offsets.vec@, h); }
                match self.parent.take() {
                    Some(mut p) => {
                        let ghost pf0 = p.frames();
                        let ghost pv0 = p.values();
                        proof {
                            p.lemma_frames();
                            lemma_lookup_cons(self.offsets.vec@, pf0, name@, expected_type, expected_init_status);
                            assert(old_frames == seq![self.offsets.vec@] + pf0);
                        }
                        let r = p.lookup(name, expected_type, expected_init_status);
                        let ghost pf1 = p.frames();
                        self.parent = Some(p);
                        proof {
                            self.lemma_frames();
                            assert(self.frames() == seq![self.offsets.vec@] + pf1);
                        }
                        match r {
                            Ok((d, o, t)) => Ok((d + 1, o, t)),
                            Err(e) => Err(e),
                        }
                    },
                    None => {
                        proof {
                            self.lemma_frames();
                            assert(old_frames =~= seq![self.offsets.vec@]);
                            assert(self.frames() =~= seq![self.offsets.vec@]);
                            assert(resolve(old_frames, h, 0) == resolve(old_frames, h, 1));
                        }
                        Err(var_not_found(name))
                    },
                }
            },
        }
    }

    proof fn lemma_wf_frames(&self)
        requires
            self.wf(),
        ensures
            self.values().len() == self.frames().len(),
            forall|d: int| 0 <= d < self.frames().len() ==> frame_ok(#[trigger] self.frames()[d], self.values()[d].len()),
        decreases self,
    {
        self.lemma_frames();
        match &self.parent {
            Some(p) => {
                p.lemma_wf_frames();
                assert forall|d: int| 0 <= d < self.frames().len() implies frame_ok(#[trigger] self.frames()[d], self.values()[d].len()) by {
                    if d > 0 {
                        assert(self.frames()[d] == p.frames()[d - 1]);
                        assert(self.values()[d] == p.values()[d - 1]);
                    }
                }
            },
            None => {},
        }
    }

    /// Looks up a variable of type `expected_type`: where its value lies.
    /// A declaration (`expected_init_status == false`) asks for a variable
    /// not yet initialised and marks it initialised; a use asks for an
    /// initialised one.
    pub fn get_typed(&mut self, name: &String, expected_type: &Type, expected_init_status: bool) -> (r: Result<
        VarLoc,
        String,
    >)
        requires
            old(self).wf(),
            old(self).frames().len() <= usize::MAX,
            lookup_names_ok(old(self).frames(), name@, *expected_type, expected_init_status),
        ensures
            final(self).wf(),
            final(self).values() == old(self).values(),
            final(self).frames() == lookup_frames(old(self).frames(), name@, Some(*expected_type), expected_init_status),
            match lookup_result(old(self).frames(), name@, Some(*expected_type), expected_init_status) {
                Ok((d, o, t)) => r == Ok::<VarLoc, String>((d as usize, o as usize)),
                Err(m) => r matches Err(e) && e@ == m,
            },
            r matches Ok((d, o)) ==> d < final(self).values().len() && o < final(self).values()[d as int].len(),
    {
        proof {
            self.lemma_wf_frames();
            lemma_lookup_bounds(self.frames(), name@, Some(*expected_type), expected_init_status);
        }
        let r = self.lookup(name, Some(*expected_type), expected_init_status);
        match r {
            Ok((d, o, _)) => Ok((d, o)),
            Err(e) => Err(e),
        }
    }

    /// Looks up a variable of any type: where its value lies and its type.
    pub fn get_dynamicaly(&mut self, name: &String, expected_init_status: bool) -> (r: Result<
        (VarLoc, Type),
        String,
    >)
        requires
            old(self).wf(),
            old(self).frames().len() <= usize::MAX,
        ensures
            final(self).wf(),
            final(self).values() == old(self).values(),
            final(self).frames() == lookup_frames(old(self).frames(), name@, None, expected_init_status),
            match lookup_result(old(self).frames(), name@, None, expected_init_status) {
                Ok((d, o, t)) => r == Ok::<(VarLoc, Type), String>(((d as usize, o as usize), t)),
                Err(m) => r matches Err(e) && e@ == m,
            },
            r matches Ok(((d, o), _)) ==> d < final(self).values().len() && o < final(self).values()[d as int].len(),
    {
        proof {
            self.lemma_wf_frames();
            lemma_lookup_bounds(self.frames(), name@, None, expected_init_status);
        }
        let r = self.lookup(name, None, expected_init_status);
        match r {
            Ok((d, o, t)) => Ok(((d, o), t)),
            Err(e) => Err(e),
        }
    }

    /// The type of the variable that `name` resolves to, and whether it was
    /// given a value.
    pub fn find_var(&self, name: &String) -> (r: Option<(Type, bool)>)
        requires
            self.wf(),
        ensures
            r == match resolve(self.frames(), string_hash(name@), 0) {
                Some((d, i)) => Some((self.frames()[d][i].1.vtype, self.frames()[d][i].1.initialized)),
                None => None::<(Type, bool)>,
            },
        decreases self.frames().len(),
    {
        proof { self.lemma_frames(); }
        let ghost h = string_hash(name@);
        match self.offsets.get(name) {
            Some(i) => {
                proof {
                    lemma_find(self.offsets.vec@, h);
                    lemma_resolve_first(self.offsets.vec@, Self::outer_frames(self.parent), h);
                }
                Some((self.offsets.vec[i].1.vtype, self.offsets.vec[i].1.initialized))
            },
            None => {
                proof { lemma_find(self.offsets.vec@, h); }
                match &self.parent {
                    Some(p) => {
                        proof {
                            p.lemma_frames();
                            lemma_resolve_shift(self.offsets.vec@, p.frames(), h, 0);
                            lemma_resolve_bounds(p.frames(), h, 0);
                            assert(resolve(self.frames(), h, 0) == resolve(self.frames(), h, 1));
                            match resolve(p.frames(), h, 0) {
                                Some((d, i)) => { assert(self.frames()[d + 1] == p.frames()[d]); },
                                None => {},
                            }
                        }
                        p.find_var(name)
                    },
                    None => {
                        proof {
                            assert(self.frames() =~= seq![self.offsets.vec@]);
                            assert(resolve(self.frames(), h, 0) == resolve(self.frames(), h, 1));
                        }
                        None
                    },
                }
            },
        }
    }

    /// Marks every variable of this frame as not yet given a value (a loop's
    /// body starts each round afresh).
    pub fn uninit_all(&mut self)
        requires
            old(self).wf(),
        ensures
            final(self).wf(),
            final(self).values() == old(self).values(),
            final(self).frames() == old(self).frames().update(0, uninit(old(self).frames()[0])),
    {
        proof { self.lemma_frames(); }
        let ghost old_frames = self.frames();
        let ghost s0 = self.offsets.vec@;
        let mut i: usize = 0;
        while i < self.offsets.vec.len()
            invariant
                self.size == old(self).size,
                self.slots == old(self).slots,
                self.parent == old(self).parent,
                self.offsets.vec@.len() == s0.len(),
                s0 == old(self).offsets.vec@,
                i <= s0.len(),
                forall|k: int| 0 <= k < i ==> #[trigger] self.offsets.vec@[k] == uninit(s0)[k],
                forall|k: int| i <= k < s0.len() ==> #[trigger] self.offsets.vec@[k] == s0[k],
            decreases s0.len() - i,
        {
            let key = self.offsets.vec[i].0;
            let offset = self.offsets.vec[i].1.offset;
            let vtype = self.offsets.vec[i].1.vtype;
            self.offsets.vec.set(i, (key, StackVariable { offset, vtype, initialized: false }));
            i = i + 1;
        }
        proof {
            assert(self.offsets.vec@ =~= uninit(s0));
            self.lemma_frames();
            assert(self.frames() =~= old_frames.update(0, uninit(s0)));
        }
    }

    /// The value at `offset` in the frame `depth` frames up.
    pub fn slot(&self, depth: usize, offset: usize) -> (r: &Option<V>)
        requires
            self.wf(),
            depth < self.values().len(),
            offset < self.values()[depth as int].len(),
        ensures
            *r == self.values()[depth as int][offset as int],
        decreases depth,
    {
        proof { self.lemma_frames(); }
        if depth == 0 {
            &self.slots[offset]
        } else {
            match &self.parent {
                Some(p) => {
                    proof { p.lemma_frames(); }
                    p.slot(depth - 1, offset)
                },
                None => {
                    proof { assert(self.values() =~= seq![self.slots@]); }
                    &self.slots[offset]
                },
            }
        }
    }

    /// Puts `v` at `offset` in the frame `depth` frames up.
    pub fn set_slot(&mut self, depth: usize, offset: usize, v: V)
        requires
            old(self).wf(),
            depth < old(self).values().len(),
            offset < old(self).values()[depth as int].len(),
        ensures
            final(self).wf(),
            final(self).frames() == old(self).frames(),
            final(self).values() == old(self).values().update(
                depth as int,
                old(self).values()[depth as int].update(offset as int, Some(v)),
            ),
        decreases depth,
    {
        proof { self.lemma_frames(); }
        let ghost old_values = self.values();
        if depth == 0 {
            self.slots.set(offset, Some(v));
            proof {
                self.lemma_frames();
                assert(self.values() =~= old_values.update(0, old_values[0].update(offset as int, Some(v))));
            }
        } else {
            match self.parent.take() {
                Some(mut p) => {
                    let ghost pv0 = p.values();
                    proof { p.lemma_frames(); }
                    p.set_slot(depth - 1, offset, v);
                    let ghost pv1 = p.values();
                    self.parent = Some(p);
                    proof {
                        self.lemma_frames();
                        assert(old_values =~= seq![self.slots@] + pv0);
                        assert(self.values() =~= seq![self.slots@] + pv1);
                        assert(self.values() =~= old_values.update(
                            depth as int,
                            old_values[depth as int].update(offset as int, Some(v)),
                        ));
                    }
                },
                None => {
                    proof {
                        self.lemma_frames();
                        assert(old_values =~= seq![self.slots@]);
                    }
                },
            }
        }
    }
}

/// Whether a frame's entries fit a frame of `len` value slots: one entry per
/// slot, each at an offset inside, sorted by hash.
pub open spec fn frame_ok(f: Seq<(u64, StackVariable)>, len: nat) -> bool {
    &&& f.len() == len
    &&& sorted(f)
    &&& forall|k: int| 0 <= k < f.len() ==> #[trigger] f[k].1.offset < len
}

/// The entries with every variable marked as not yet given a value.
pub open spec fn uninit(s: Seq<(u64, StackVariable)>) -> Seq<(u64, StackVariable)> {
    Seq::new(
        s.len(),
        |k: int| (s[k].0, StackVariable { offset: s[k].1.offset, vtype: s[k].1.vtype, initialized: false }),
    )
}

pub proof fn lemma_lookup_bounds(
    frames: Seq<Seq<(u64, StackVariable)>>,
    name: Seq<char>,
    expected: Option<Type>,
    init: bool,
)
    ensures
        lookup_result(frames, name, expected, init) matches Ok((d, o, t)) ==> 0 <= d < frames.len() && (exists|i: int|
            0 <= i < frames[d].len() && #[trigger] frames[d][i].1.offset == o),
{
    lemma_resolve_bounds(frames, string_hash(name), 0);
    match resolve(frames, string_hash(name), 0) {
        Some((d, i)) => {
            let e = frames[d][i].1;
            if lookup_result(frames, name, expected, init) is Ok {
                assert(lookup_result(frames, name, expected, init) == Ok::<(int, int, Type), Seq<char>>(
                    (d, e.offset as int, e.vtype),
                ));
                assert(0 <= i < frames[d].len() && frames[d][i].1.offset == e.offset as int);
            }
        },
        None => {},
    }
}

/// Whether two chains of frames hold the same hashes at the same places.
pub open spec fn same_keys(a: Seq<Seq<(u64, StackVariable)>>, b: Seq<Seq<(u64, StackVariable)>>) -> bool {
    &&& a.len() == b.len()
    &&& forall|d: int| 0 <= d < a.len() ==> (#[trigger] a[d]).len() == b[d].len()
    &&& forall|d: int, i: int| 0 <= d < a.len() && 0 <= i < a[d].len() ==> (#[trigger] a[d][i]).0 == b[d][i].0
}

pub proof fn lemma_bsearch_keys(
    a: Seq<(u64, StackVariable)>,
    b: Seq<(u64, StackVariable)>,
    t: u64,
    left: int,
    right: int,
)
    requires
        a.len() == b.len(),
        forall|i: int| 0 <= i < a.len() ==> (#[trigger] a[i]).0 == b[i].0,
    ensures
        bsearch(a, t, left, right) == bsearch(b, t, left, right),
    decreases right - left + 1,
{
    if left <= right && left >= 0 && right < a.len() {
        let mid = left + (right - left) / 2;
        assert(a[mid].0 == b[mid].0);
        lemma_bsearch_keys(a, b, t, mid + 1, right);
        lemma_bsearch_keys(a, b, t, left, mid - 1);
    }
}

pub proof fn lemma_resolve_keys(a: Seq<Seq<(u64, StackVariable)>>, b: Seq<Seq<(u64, StackVariable)>>, h: u64, d: int)
    requires
        same_keys(a, b),
        0 <= d,
    ensures
        resolve(a, h, d) == resolve(b, h, d),
    decreases a.len() - d,
{
    if d < a.len() {
        assert forall|i: int| 0 <= i < a[d].len() implies (#[trigger] a[d][i]).0 == b[d][i].0 by {}
        lemma_bsearch_keys(a[d], b[d], h, 0, a[d].len() - 1);
        lemma_resolve_keys(a, b, h, d + 1);
    }
}

/// The entry that a frame gets for the reservation `r[k]`.
pub open spec fn reserved_entry(r: Seq<VarInfo>, k: int) -> (u64, StackVariable) {
    (string_hash(r[k].name@), StackVariable { offset: k as usize, vtype: r[k].vtype, initialized: false })
}

/// Whether some entry of `s` lies at `offset`.
pub open spec fn has_offset(s: Seq<(u64, StackVariable)>, offset: int) -> bool {
    exists|i: int| 0 <= i < s.len() && (#[trigger] s[i]).1.offset == offset
}

/// The entries that a frame opened for `r[..n]` holds are sorted, one for
/// each reservation: each is the uninitialised entry of the reservation at
/// its offset, and each offset below `n` has one.
pub proof fn law_opened_frame_entries(r: Seq<VarInfo>, n: nat)
    requires
        n <= r.len(),
        r.len() <= usize::MAX,
    ensures
        alloc_entries(r, n).len() == n,
        sorted(alloc_entries(r, n)),
        forall|i: int| 0 <= i < n ==> {
            let e = #[trigger] alloc_entries(r, n)[i];
            &&& (e.1.offset as int) < n
            &&& e == reserved_entry(r, e.1.offset as int)
        },
        forall|k: int| 0 <= k < n ==> #[trigger] has_offset(alloc_entries(r, n), k),
    decreases n,
{
    if n > 0 {
        let m = (n - 1) as nat;
        law_opened_frame_entries(r, m);
        let prev = alloc_entries(r, m);
        let h = string_hash(r[m as int].name@);
        let e = reserved_entry(r, m as int);
        lemma_insert_sorted(prev, h, e.1);
        let p = first_greater(prev, h, 0);
        let t = alloc_entries(r, n);
        assert(t == prev.insert(p, e));
        assert forall|i: int| 0 <= i < n implies {
            let x = #[trigger] t[i];
            &&& (x.1.offset as int) < n
            &&& x == reserved_entry(r, x.1.offset as int)
        } by {
            if i < p {
                assert(t[i] == prev[i]);
            } else if i > p {
                assert(t[i] == prev[i - 1]);
            }
        }
        assert forall|k: int| 0 <= k < n implies #[trigger] has_offset(t, k) by {
            if k == m {
                assert(t[p].1.offset == k);
            } else {
                assert(has_offset(prev, k));
                let i0 = choose|i: int| 0 <= i < prev.len() && (#[trigger] prev[i]).1.offset == k;
                if i0 < p {
                    assert(t[i0] == prev[i0]);
                } else {
                    assert(t[i0 + 1] == prev[i0]);
                }
            }
        }
    }
}

/// In a frame just opened for `reserve` (the frames that `allocate` gives),
/// whose names hash apart, each reserved name resolves in that frame to its
/// own variable, uninitialised, at its offset and of its reserved type; so
/// `get_typed` of it as a declaration finds it there, and a use of it before
/// that fails.
pub proof fn law_open_then_declare(reserve: Seq<VarInfo>, outer: Seq<Seq<(u64, StackVariable)>>, k: int)
    requires
        reserve.len() <= usize::MAX,
        0 <= k < reserve.len(),
        forall|a: int, b: int|
            0 <= a < b < reserve.len() ==> string_hash(#[trigger] reserve[a].name@) != string_hash(
                #[trigger] reserve[b].name@,
            ),
    ensures
        ({
            let frames = seq![alloc_entries(reserve, reserve.len())] + outer;
            &&& resolve(frames, string_hash(reserve[k].name@), 0) matches Some((d, i)) && d == 0
                && frames[0][i].1 == (StackVariable { offset: k as usize, vtype: reserve[k].vtype, initialized: false })
            &&& lookup_result(frames, reserve[k].name@, Some(reserve[k].vtype), false) == Ok::<
                (int, int, Type),
                Seq<char>,
            >((0, k, reserve[k].vtype))
            &&& lookup_result(frames, reserve[k].name@, None, true) == Err::<(int, int, Type), Seq<char>>(
                var_not_found_msg(reserve[k].name@),
            )
        }),
{
    let n = reserve.len();
    let a = alloc_entries(reserve, n);
    let frames = seq![a] + outer;
    let h = string_hash(reserve[k].name@);
    law_opened_frame_entries(reserve, n);
    assert(has_offset(a, k));
    let i0 = choose|i: int| 0 <= i < a.len() && (#[trigger] a[i]).1.offset == k;
    assert(a[i0] == reserved_entry(reserve, k));
    lemma_find(a, h);
    assert(a[i0].0 == h);
    assert(find(a, h) is Some);
    let j = find(a, h)->0;
    let o = a[j].1.offset as int;
    assert(a[j] == reserved_entry(reserve, o));
    if o != k {
        if o < k {
            assert(string_hash(reserve[o].name@) != string_hash(reserve[k].name@));
        } else {
            assert(string_hash(reserve[k].name@) != string_hash(reserve[o].name@));
        }
    }
    assert(frames[0] == a);
    assert(resolve(frames, h, 0) == Some((0int, j)));
}

/// A typed lookup, for a use as for a declaration, succeeds only on a
/// variable of the asked type, and gives that type back; where the name
/// resolves to a variable in the asked state (given a value for a use, not
/// yet for a declaration) but of another type, it fails with the message of
/// the wrong type.
pub proof fn law_typed_lookup_checks_the_type(
    frames: Seq<Seq<(u64, StackVariable)>>,
    name: Seq<char>,
    t: Type,
    init: bool,
)
    ensures
        match lookup_result(frames, name, Some(t), init) {
            Ok((d, o, ty)) => ty == t && match resolve(frames, string_hash(name), 0) {
                Some((d2, i)) => d2 == d && frames[d][i].1.vtype == t && frames[d][i].1.initialized == init,
                None => false,
            },
            Err(_) => true,
        },
        match resolve(frames, string_hash(name), 0) {
            Some((d, i)) => frames[d][i].1.initialized == init && frames[d][i].1.vtype != t
                ==> lookup_result(frames, name, Some(t), init) == Err::<(int, int, Type), Seq<char>>(
                wrong_type_msg(name, t, frames[d][i].1.vtype),
            ),
            None => true,
        },
{
}

/// A variable, once declared, is found by a use with the same type, at the
/// same place; declaring it again fails.
pub proof fn law_declare_then_use(frames: Seq<Seq<(u64, StackVariable)>>, name: Seq<char>, t: Type)
    requires
        lookup_result(frames, name, Some(t), false) is Ok,
    ensures
        ({
            let after = lookup_frames(frames, name, Some(t), false);
            &&& lookup_result(after, name, Some(t), true) == lookup_result(frames, name, Some(t), false)
            &&& lookup_result(after, name, None, true) == lookup_result(frames, name, Some(t), false)
            &&& lookup_result(after, name, Some(t), false) == Err::<(int, int, Type), Seq<char>>(
                var_already_exists_msg(name),
            )
        }),
{
    let h = string_hash(name);
    let after = lookup_frames(frames, name, Some(t), false);
    lemma_resolve_bounds(frames, h, 0);
    let (d, i) = resolve(frames, h, 0)->0;
    assert(same_keys(frames, after)) by {
        assert forall|d2: int, i2: int| 0 <= d2 < frames.len() && 0 <= i2 < frames[d2].len() implies (#[trigger] frames[d2][i2]).0 == after[d2][i2].0 by {
            if d2 == d && i2 == i {
            }
        }
    }
    lemma_resolve_keys(frames, after, h, 0);
    assert(after[d][i].1.initialized);
}

/// After `uninit_all`, a variable of the first frame is no longer found by a
/// use, but can be declared again.
pub proof fn law_uninit_then_use(frames: Seq<Seq<(u64, StackVariable)>>, name: Seq<char>, expected: Option<Type>)
    requires
        resolve(frames, string_hash(name), 0) matches Some((d, i)) && d == 0,
    ensures
        ({
            let after = frames.update(0, uninit(frames[0]));
            &&& lookup_result(after, name, expected, true) == Err::<(int, int, Type), Seq<char>>(
                var_not_found_msg(name),
            )
            &&& resolve(after, string_hash(name), 0) == resolve(frames, string_hash(name), 0)
            &&& !after[0][(resolve(frames, string_hash(name), 0)->0).1].1.initialized
        }),
{
    let h = string_hash(name);
    let after = frames.update(0, uninit(frames[0]));
    lemma_resolve_bounds(frames, h, 0);
    assert(same_keys(frames, after)) by {
        assert forall|d2: int, i2: int| 0 <= d2 < frames.len() && 0 <= i2 < frames[d2].len() implies (#[trigger] frames[d2][i2]).0 == after[d2][i2].0 by {
            if d2 == 0 {
                assert(after[0] == uninit(frames[0]));
            }
        }
    }
    lemma_resolve_keys(frames, after, h, 0);
}

/// A name resolves in the innermost frame that holds its hash: in this frame
/// where it holds it, else as the outer frames resolve it, one frame further
/// out.
pub proof fn law_lookup_inner_first(x: Seq<(u64, StackVariable)>, outer: Seq<Seq<(u64, StackVariable)>>, h: u64)
    ensures
        find(x, h) is Some ==> resolve(seq![x] + outer, h, 0) == Some((0int, find(x, h)->0)),
        find(x, h) is None ==> resolve(seq![x] + outer, h, 0) == shift(resolve(outer, h, 0)),
{
    if find(x, h) is Some {
        lemma_resolve_first(x, outer, h);
    } else {
        lemma_resolve_shift(x, outer, h, 0);
        assert((seq![x] + outer)[0] == x);
    }
}

/// After `set_slot`, `slot` at the same place gives the value written, and
/// every other place keeps its value.
pub proof fn law_write_then_read<V>(values: Seq<Seq<Option<V>>>, d: int, o: int, v: V, d2: int, o2: int)
    requires
        0 <= d < values.len(),
        0 <= o < values[d].len(),
        0 <= d2 < values.len(),
        0 <= o2 < values[d2].len(),
    ensures
        ({
            let after = values.update(d, values[d].update(o, Some(v)));
            &&& after[d][o] == Some(v)
            &&& (d2 != d || o2 != o) ==> after[d2][o2] == values[d2][o2]
        }),
{
}

} // verus!
