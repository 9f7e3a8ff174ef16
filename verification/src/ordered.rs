//! Maps and sets keyed by text, kept in byte order without repeated keys.
use vstd::prelude::*;
use vstd::utf8::encode_utf8;

verus! {

/// `left` comes before `right` when both are compared byte by byte from `at` on;
/// a proper prefix comes first.
pub open spec fn bytes_less_from(left: Seq<u8>, right: Seq<u8>, at: nat) -> bool
    decreases right.len() - at,
{
    if at >= right.len() {
        false
    } else if at >= left.len() {
        true
    } else if left[at as int] != right[at as int] {
        left[at as int] < right[at as int]
    } else {
        bytes_less_from(left, right, at + 1)
    }
}

/// The order of texts: by their UTF-8 bytes.
pub open spec fn text_less(left: Seq<char>, right: Seq<char>) -> bool {
    bytes_less_from(encode_utf8(left), encode_utf8(right), 0)
}

proof fn lemma_bytes_irreflexive(text: Seq<u8>, at: nat)
    ensures
        !bytes_less_from(text, text, at),
    decreases text.len() - at,
{
    if at < text.len() {
        lemma_bytes_irreflexive(text, at + 1);
    }
}

proof fn lemma_bytes_transitive(a: Seq<u8>, b: Seq<u8>, c: Seq<u8>, at: nat)
    requires
        bytes_less_from(a, b, at),
        bytes_less_from(b, c, at),
    ensures
        bytes_less_from(a, c, at),
    decreases c.len() - at,
{
    if at < a.len() && a[at as int] == b[at as int] && b[at as int] == c[at as int] {
        lemma_bytes_transitive(a, b, c, at + 1);
    }
}

proof fn lemma_bytes_total(a: Seq<u8>, b: Seq<u8>, at: nat)
    requires
        at <= a.len(),
        at <= b.len(),
        forall|i: int| 0 <= i < at ==> a[i] == b[i],
        !bytes_less_from(a, b, at),
        !bytes_less_from(b, a, at),
    ensures
        a == b,
    decreases a.len() - at,
{
    if at == a.len() || at == b.len() {
        assert(a =~= b);
    } else {
        lemma_bytes_total(a, b, at + 1);
    }
}

/// No text comes before itself.
pub proof fn law_order_irreflexive(text: Seq<char>)
    ensures
        !text_less(text, text),
{
    lemma_bytes_irreflexive(encode_utf8(text), 0);
}

/// What comes before a text that comes before a third comes before the third.
pub proof fn law_order_transitive(a: Seq<char>, b: Seq<char>, c: Seq<char>)
    requires
        text_less(a, b),
        text_less(b, c),
    ensures
        text_less(a, c),
{
    lemma_bytes_transitive(encode_utf8(a), encode_utf8(b), encode_utf8(c), 0);
}

/// Of two different texts one comes before the other.
pub proof fn law_order_total(a: Seq<char>, b: Seq<char>)
    ensures
        a == b || text_less(a, b) || text_less(b, a),
{
    if !text_less(a, b) && !text_less(b, a) {
        lemma_bytes_total(encode_utf8(a), encode_utf8(b), 0);
        vstd::utf8::encode_utf8_decode_utf8(a);
        vstd::utf8::encode_utf8_decode_utf8(b);
    }
}

/// Tests whether `left` comes before `right`.
pub fn is_before(left: &str, right: &str) -> (before: bool)
    ensures
        before == text_less(left@, right@),
{
    let a: &[u8] = left.as_bytes();
    let b: &[u8] = right.as_bytes();
    let mut i: usize = 0;
    while i < a.len() && i < b.len()
        invariant
            i <= a.len(),
            i <= b.len(),
            a@ == encode_utf8(left@),
            b@ == encode_utf8(right@),
            bytes_less_from(a@, b@, 0) == bytes_less_from(a@, b@, i as nat),
        decreases a.len() - i,
    {
        if a[i] != b[i] {
            return a[i] < b[i];
        }
        i = i + 1;
    }
    i < b.len()
}

/// The keys of `entries`, in order.
spec fn keys_of<V>(entries: Seq<(String, V)>) -> Seq<Seq<char>> {
    Seq::new(entries.len(), |i: int| entries[i].0@)
}

spec fn strictly_sorted(keys: Seq<Seq<char>>) -> bool {
    forall|i: int, j: int| 0 <= i < j < keys.len() ==> text_less(#[trigger] keys[i], #[trigger] keys[j])
}

spec fn contents<V>(entries: Seq<(String, V)>) -> Map<Seq<char>, V> {
    let keys = keys_of(entries);
    Map::new(|k: Seq<char>| keys.contains(k), |k: Seq<char>| entries[keys.index_of(k)].1)
}

/// A map from texts to values, held in key order.
pub struct TextMap<V> {
    entries: Vec<(String, V)>,
}

impl<V> View for TextMap<V> {
    type V = Map<Seq<char>, V>;

    closed spec fn view(&self) -> Map<Seq<char>, V> {
        contents(self.entries@)
    }
}

proof fn lemma_sorted_unique(keys: Seq<Seq<char>>)
    requires
        strictly_sorted(keys),
    ensures
        keys.no_duplicates(),
{
    assert forall|i: int, j: int|
        0 <= i < keys.len() && 0 <= j < keys.len() && i != j implies keys[i] != keys[j] by {
        if i < j {
            assert(text_less(keys[i], keys[j]));
        } else {
            assert(text_less(keys[j], keys[i]));
        }
        law_order_irreflexive(keys[i]);
    }
}

proof fn lemma_contents_at<V>(entries: Seq<(String, V)>, at: int)
    requires
        strictly_sorted(keys_of(entries)),
        0 <= at < entries.len(),
    ensures
        contents(entries).contains_key(entries[at].0@),
        contents(entries)[entries[at].0@] == entries[at].1,
{
    let keys = keys_of(entries);
    lemma_sorted_unique(keys);
    assert(keys[at] == entries[at].0@);
    assert(keys.contains(keys[at]));
    let found = keys.index_of(keys[at]);
    assert(keys[found] == keys[at]);
    assert(found == at);
}

impl<V> TextMap<V> {
    #[verifier::type_invariant]
    spec fn in_order(self) -> bool {
        strictly_sorted(keys_of(self.entries@))
    }

    /// The empty map.
    pub fn new() -> (map: Self)
        ensures
            map@ == Map::<Seq<char>, V>::empty(),
    {
        let map = TextMap { entries: Vec::new() };
        proof {
            assert(contents(map.entries@) =~= Map::<Seq<char>, V>::empty());
        }
        map
    }

    /// Number of keys.
    pub fn len(&self) -> (count: usize)
        ensures
            self@.dom().finite(),
            count == self@.len(),
    {
        proof {
            use_type_invariant(self);
            let keys = keys_of(self.entries@);
            lemma_sorted_unique(keys);
            keys.unique_seq_to_set();
            assert(self@.dom() =~= keys.to_set());
        }
        self.entries.len()
    }

    /// The position of the first entry whose key does not come before `key`.
    fn lower_bound(entries: &Vec<(String, V)>, key: &str) -> (at: usize)
        requires
            strictly_sorted(keys_of(entries@)),
        ensures
            at <= entries.len(),
            forall|i: int| 0 <= i < at ==> text_less(#[trigger] entries@[i].0@, key@),
            forall|i: int| at <= i < entries.len() ==> !text_less(#[trigger] entries@[i].0@, key@),
    {
        let mut low: usize = 0;
        let mut high: usize = entries.len();
        while low < high
            invariant
                low <= high <= entries.len(),
                strictly_sorted(keys_of(entries@)),
                forall|i: int| 0 <= i < low ==> text_less(#[trigger] entries@[i].0@, key@),
                forall|i: int|
                    high <= i < entries.len() ==> !text_less(#[trigger] entries@[i].0@, key@),
            decreases high - low,
        {
            let mid: usize = low + (high - low) / 2;
            if is_before(entries[mid].0.as_str(), key) {
                proof {
                    assert forall|i: int| 0 <= i < mid + 1 implies text_less(
                        #[trigger] entries@[i].0@,
                        key@,
                    ) by {
                        if i < mid {
                            let keys = keys_of(entries@);
                            assert(text_less(keys[i], keys[mid as int]));
                            law_order_transitive(keys[i], keys[mid as int], key@);
                        }
                    }
                }
                low = mid + 1;
            } else {
                proof {
                    assert forall|i: int| mid <= i < entries.len() implies !text_less(
                        #[trigger] entries@[i].0@,
                        key@,
                    ) by {
                        if i > mid && text_less(entries@[i].0@, key@) {
                            let keys = keys_of(entries@);
                            assert(text_less(keys[mid as int], keys[i]));
                            law_order_transitive(keys[mid as int], keys[i], key@);
                        }
                    }
                }
                high = mid;
            }
        }
        low
    }

    /// The value stored under `key`.
    pub fn get(&self, key: &str) -> (value: Option<&V>)
        ensures
            match value {
                Some(v) => self@.contains_key(key@) && *v == self@[key@],
                None => !self@.contains_key(key@),
            },
    {
        proof {
            use_type_invariant(self);
        }
        let at: usize = Self::lower_bound(&self.entries, key);
        if at < self.entries.len() && crate::text::text_eq(self.entries[at].0.as_str(), key) {
            proof {
                lemma_contents_at(self.entries@, at as int);
            }
            Some(&self.entries[at].1)
        } else {
            proof {
                if self@.contains_key(key@) {
                    let keys = keys_of(self.entries@);
                    let i = keys.index_of(key@);
                    assert(keys.contains(key@));
                    assert(self.entries@[i].0@ == key@);
                    law_order_irreflexive(key@);
                    assert(i >= at);
                    if i > at {
                        assert(text_less(keys[at as int], keys[i]));
                        assert(text_less(self.entries@[at as int].0@, key@));
                    }
                }
            }
            None
        }
    }

    /// Tests whether `key` is present.
    pub fn contains(&self, key: &str) -> (present: bool)
        ensures
            present == self@.contains_key(key@),
    {
        self.get(key).is_some()
    }

    /// Stores `value` under `key`, in place of what was there.
    pub fn insert(&mut self, key: String, value: V)
        ensures
            final(self)@ == old(self)@.insert(key@, value),
    {
        proof {
            use_type_invariant(&*self);
        }
        let ghost before = self@;
        let mut entries: Vec<(String, V)> = Vec::new();
        std::mem::swap(&mut entries, &mut self.entries);
        let ghost old_entries = entries@;
        let ghost old_keys = keys_of(old_entries);
        let at: usize = Self::lower_bound(&entries, key.as_str());
        let ghost k = key@;
        if at < entries.len() && crate::text::text_eq(entries[at].0.as_str(), key.as_str()) {
            let _ = entries.remove(at);
            entries.insert(at, (key, value));
            proof {
                let keys = keys_of(entries@);
                assert(keys =~= old_keys);
                assert(contents(entries@) =~= before.insert(k, value)) by {
                    lemma_sorted_unique(keys);
                    assert forall|x: Seq<char>| keys.contains(x) implies #[trigger] contents(entries@)[x]
                        == before.insert(k, value)[x] by {
                        let i = keys.index_of(x);
                        assert(keys[i] == x);
                        if x == k {
                            lemma_contents_at(entries@, at as int);
                        } else {
                            assert(i != at);
                            assert(entries@[i] == old_entries[i]);
                        }
                    }
                    assert(keys.contains(keys[at as int]));
                }
            }
        } else {
            entries.insert(at, (key, value));
            proof {
                let keys = keys_of(entries@);
                assert(keys =~= old_keys.insert(at as int, k));
                if at < old_entries.len() {
                    law_order_total(old_entries[at as int].0@, k);
                }
                assert forall|i: int, j: int| 0 <= i < j < keys.len() implies text_less(
                    #[trigger] keys[i],
                    #[trigger] keys[j],
                ) by {
                    if i == at {
                        assert(keys[j] == old_keys[j - 1]);
                        assert(text_less(k, old_keys[at as int]));
                        if j - 1 > at {
                            assert(text_less(old_keys[at as int], old_keys[j - 1]));
                            law_order_transitive(k, old_keys[at as int], old_keys[j - 1]);
                        }
                    } else if j == at {
                        assert(keys[i] == old_entries[i].0@);
                    } else {
                        let oi = if i < at { i } else { i - 1 };
                        let oj = if j < at { j } else { j - 1 };
                        assert(keys[i] == old_keys[oi] && keys[j] == old_keys[oj]);
                        assert(text_less(old_keys[oi], old_keys[oj]));
                    }
                }
                assert(contents(entries@) =~= before.insert(k, value)) by {
                    assert(keys[at as int] == k);
                    lemma_contents_at(entries@, at as int);
                    assert forall|x: Seq<char>| #[trigger] keys.contains(x) <==> (old_keys.contains(x) || x == k) by {
                        if keys.contains(x) && x != k {
                            let i = keys.index_of(x);
                            let oi = if i < at { i } else { i - 1 };
                            assert(old_keys[oi] == x);
                        }
                        if old_keys.contains(x) {
                            let oi = old_keys.index_of(x);
                            let i = if oi < at { oi } else { oi + 1 };
                            assert(keys[i] == x);
                        }
                        if x == k {
                            assert(keys[at as int] == x);
                        }
                    }
                    assert forall|x: Seq<char>| keys.contains(x) implies #[trigger] contents(entries@)[x]
                        == before.insert(k, value)[x] by {
                        if x != k {
                            let i = keys.index_of(x);
                            let oi = if i < at { i } else { i - 1 };
                            assert(old_keys[oi] == x);
                            assert(entries@[i] == old_entries[oi]);
                            lemma_contents_at(old_entries, oi);
                        }
                    }
                }
            }
        }
        self.entries = entries;
    }
}

/// A set of texts, held in order.
pub struct TextSet {
    members: TextMap<()>,
}

impl View for TextSet {
    type V = Set<Seq<char>>;

    closed spec fn view(&self) -> Set<Seq<char>> {
        self.members@.dom()
    }
}

impl TextSet {
    /// The empty set.
    pub fn new() -> (set: Self)
        ensures
            set@ == Set::<Seq<char>>::empty(),
    {
        let set = TextSet { members: TextMap::new() };
        assert(set@ =~= Set::<Seq<char>>::empty());
        set
    }

    /// Number of members.
    pub fn len(&self) -> (count: usize)
        ensures
            self@.finite(),
            count == self@.len(),
    {
        self.members.len()
    }

    /// Tests for membership.
    pub fn contains(&self, text: &str) -> (present: bool)
        ensures
            present == self@.contains(text@),
    {
        self.members.contains(text)
    }

    /// Adds `text`.
    pub fn insert(&mut self, text: String)
        ensures
            final(self)@ == old(self)@.insert(text@),
    {
        let ghost before = self.members@;
        self.members.insert(text, ());
        assert(self.members@.dom() =~= before.dom().insert(text@));
    }
}

/// The first position, counted from `from`, at which `texts` holds `text`.
pub open spec fn position(texts: Seq<Seq<char>>, text: Seq<char>, from: int) -> Option<int>
    decreases texts.len() - from,
{
    if from < 0 || from >= texts.len() {
        None
    } else if texts[from] == text {
        Some(from)
    } else {
        position(texts, text, from + 1)
    }
}

/// Where a text is found, it stands there and nowhere before; where it is not, it
/// stands nowhere.
pub proof fn lemma_position(texts: Seq<Seq<char>>, text: Seq<char>, from: int)
    requires
        0 <= from,
    ensures
        match position(texts, text, from) {
            Some(at) => from <= at < texts.len() && texts[at] == text && forall|i: int|
                from <= i < at ==> #[trigger] texts[i] != text,
            None => forall|i: int| from <= i < texts.len() ==> #[trigger] texts[i] != text,
        },
    decreases texts.len() - from,
{
    if from < texts.len() {
        lemma_position(texts, text, from + 1);
    }
}

/// Texts that are all different, with the position of each.
pub struct TextIndex {
    positions: TextMap<usize>,
    texts: Ghost<Seq<Seq<char>>>,
}

impl View for TextIndex {
    type V = Seq<Seq<char>>;

    closed spec fn view(&self) -> Seq<Seq<char>> {
        self.texts@
    }
}

impl TextIndex {
    #[verifier::type_invariant]
    spec fn indexed(self) -> bool {
        &&& self.texts@.len() <= usize::MAX
        &&& forall|i: int|
            0 <= i < self.texts@.len() ==> self.positions@.contains_key(#[trigger] self.texts@[i])
                && self.positions@[self.texts@[i]] == i
        &&& forall|text: Seq<char>| #[trigger]
            self.positions@.contains_key(text) ==> self.positions@[text] < self.texts@.len()
                && self.texts@[self.positions@[text] as int] == text
    }

    /// An index of nothing.
    pub fn new() -> (index: Self)
        ensures
            index@ == Seq::<Seq<char>>::empty(),
    {
        TextIndex { positions: TextMap::new(), texts: Ghost(Seq::empty()) }
    }

    /// The position of `text`.
    pub fn get(&self, text: &str) -> (at: Option<usize>)
        ensures
            match at {
                Some(found) => position(self@, text@, 0) == Some(found as int) && found
                    < self@.len(),
                None => position(self@, text@, 0) is None,
            },
    {
        proof {
            use_type_invariant(self);
            lemma_position(self.texts@, text@, 0);
        }
        match self.positions.get(text) {
            Some(at) => Some(*at),
            None => None,
        }
    }

    /// Appends `text`, unless it is there already. `at` is the number of texts so
    /// far.
    pub fn add_at(&mut self, text: &str, at: usize) -> (added: bool)
        requires
            at == old(self)@.len(),
            at < usize::MAX,
        ensures
            added == (position(old(self)@, text@, 0) is None),
            final(self)@ == if added {
                old(self)@.push(text@)
            } else {
                old(self)@
            },
    {
        if self.get(text).is_some() {
            return false;
        }
        proof {
            use_type_invariant(&*self);
            lemma_position(self.texts@, text@, 0);
        }
        let mut index: TextIndex = TextIndex::new();
        std::mem::swap(self, &mut index);
        let ghost before = index.texts@;
        let mut positions: TextMap<usize> = index.positions;
        positions.insert(text.to_string(), at);
        *self = TextIndex { positions, texts: Ghost(before.push(text@)) };
        true
    }
}

proof fn lemma_common_beginning(common: Seq<u8>, left: Seq<u8>, right: Seq<u8>, at: nat)
    requires
        at <= common.len(),
    ensures
        bytes_less_from(common + left, common + right, at) == bytes_less_from(left, right, 0) || at
            < common.len(),
        bytes_less_from(common + left, common + right, at) == bytes_less_from(
            common + left,
            common + right,
            common.len(),
        ),
    decreases common.len() - at,
{
    if at < common.len() {
        assert((common + left)[at as int] == common[at as int]);
        assert((common + right)[at as int] == common[at as int]);
        lemma_common_beginning(common, left, right, at + 1);
    } else {
        lemma_shifted(common, left, right, 0);
    }
}

proof fn lemma_shifted(common: Seq<u8>, left: Seq<u8>, right: Seq<u8>, at: nat)
    ensures
        bytes_less_from(common + left, common + right, common.len() + at) == bytes_less_from(
            left,
            right,
            at,
        ),
    decreases right.len() - at,
{
    if at < right.len() && at < left.len() {
        assert((common + left)[common.len() as int + at] == left[at as int]);
        assert((common + right)[common.len() as int + at] == right[at as int]);
        lemma_shifted(common, left, right, at + 1);
    }
}

/// Where two texts differ first, the one with the lower byte comes first, whatever follows;
/// a text comes before every longer one that begins with it.
pub proof fn law_the_first_difference_decides(
    common: Seq<u8>,
    low: u8,
    high: u8,
    left: Seq<u8>,
    right: Seq<u8>,
)
    requires
        low < high,
    ensures
        bytes_less_from(common + (seq![low] + left), common + (seq![high] + right), 0),
        !bytes_less_from(common + (seq![high] + right), common + (seq![low] + left), 0),
        bytes_less_from(common, common + (seq![low] + left), 0),
        !bytes_less_from(common + (seq![low] + left), common, 0),
{
    let lower = seq![low] + left;
    let higher = seq![high] + right;
    let none = Seq::<u8>::empty();
    lemma_common_beginning(common, lower, higher, 0);
    lemma_common_beginning(common, higher, lower, 0);
    lemma_common_beginning(common, none, lower, 0);
    lemma_common_beginning(common, lower, none, 0);
    lemma_shifted(common, lower, higher, 0);
    lemma_shifted(common, higher, lower, 0);
    lemma_shifted(common, none, lower, 0);
    lemma_shifted(common, lower, none, 0);
    assert(common + none =~= common);
    assert(lower[0] == low && higher[0] == high);
}

/// A text is found at its first place, and nowhere only where it is not.
pub proof fn law_texts_are_found_at_their_first_place(
    texts: Seq<Seq<char>>,
    text: Seq<char>,
    from: int,
)
    requires
        0 <= from <= texts.len(),
    ensures
        position(texts, text, from) matches Some(at) ==> {
            &&& from <= at < texts.len()
            &&& texts[at] == text
            &&& forall|i: int| from <= i < at ==> #[trigger] texts[i] != text
        },
        position(texts, text, from) is None ==> forall|i: int|
            from <= i < texts.len() ==> #[trigger] texts[i] != text,
    decreases texts.len() - from,
{
    if from < texts.len() && texts[from] != text {
        law_texts_are_found_at_their_first_place(texts, text, from + 1);
        match position(texts, text, from + 1) {
            Some(at) => {
                assert forall|i: int| from <= i < at implies #[trigger] texts[i] != text by {
                    if i > from {
                        assert(from + 1 <= i);
                    }
                }
            },
            None => {
                assert forall|i: int| from <= i < texts.len() implies #[trigger] texts[i]
                    != text by {
                    if i > from {
                        assert(from + 1 <= i);
                    }
                }
            },
        }
    }
}

} // verus!
