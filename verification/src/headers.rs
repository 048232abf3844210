//! An ordered, multi-valued header list and the merge policy for responses.
//!
//! Header names are compared as byte strings without regard to ASCII case.

use vstd::prelude::*;
use vstd::utf8::encode_utf8;

verus! {

/// A header list as the contracts see it: name and value pairs in order.
pub type HeaderSeq = Seq<(Seq<char>, Seq<u8>)>;

/// The lower-case form of an ASCII letter, any other byte unchanged.
pub open spec fn fold_byte(b: u8) -> u8 {
    if 65 <= b && b <= 90 {
        (b + 32) as u8
    } else {
        b
    }
}

/// The bytes by which a header name is compared.
pub open spec fn name_key(name: Seq<char>) -> Seq<u8> {
    encode_utf8(name).map_values(|b: u8| fold_byte(b))
}

/// Two header names denote the same header.
pub open spec fn same_name(a: Seq<char>, b: Seq<char>) -> bool {
    name_key(a) == name_key(b)
}

/// Some entry of `h` carries the name `name`.
pub open spec fn has_name(h: HeaderSeq, name: Seq<char>) -> bool {
    exists|i: int| 0 <= i < h.len() && same_name(#[trigger] h[i].0, name)
}

/// The entries of `h` named `name`, in order.
pub open spec fn entries_named(h: HeaderSeq, name: Seq<char>) -> HeaderSeq {
    h.filter(|e: (Seq<char>, Seq<u8>)| same_name(e.0, name))
}

/// The values that `h` holds for `name`, in order.
pub open spec fn values_of(h: HeaderSeq, name: Seq<char>) -> Seq<Seq<u8>> {
    entries_named(h, name).map_values(|e: (Seq<char>, Seq<u8>)| e.1)
}

/// The first value that `h` holds for `name`.
pub open spec fn first_value(h: HeaderSeq, name: Seq<char>) -> Option<Seq<u8>> {
    if values_of(h, name).len() > 0 {
        Some(values_of(h, name)[0])
    } else {
        None
    }
}

/// `h` without the entries named `name`.
pub open spec fn without_name(h: HeaderSeq, name: Seq<char>) -> HeaderSeq {
    h.filter(|e: (Seq<char>, Seq<u8>)| !same_name(e.0, name))
}

/// `h` with the single value `value` for `name`: earlier values for that name
/// are dropped and the new entry stands last.
pub open spec fn with_set(h: HeaderSeq, name: Seq<char>, value: Seq<u8>) -> HeaderSeq {
    without_name(h, name).push((name, value))
}

/// The entries of `primary` whose name does not occur in `overlay`, in order.
pub open spec fn untouched(primary: HeaderSeq, overlay: HeaderSeq) -> HeaderSeq {
    primary.filter(|e: (Seq<char>, Seq<u8>)| !has_name(overlay, e.0))
}

/// The merge of two header lists: the entries of `primary` that `overlay`
/// does not name, in their order, followed by all of `overlay`.
pub open spec fn merged(primary: HeaderSeq, overlay: HeaderSeq) -> HeaderSeq {
    untouched(primary, overlay) + overlay
}

/// The status of a response: the explicit one if there is one.
pub open spec fn status_or(explicit: Option<u16>, fallback: u16) -> u16 {
    match explicit {
        Some(s) => s,
        None => fallback,
    }
}

/// Chooses the status code of a response.
pub fn select_status(explicit: Option<u16>, fallback: u16) -> (status: u16)
    ensures
        status == status_or(explicit, fallback),
{
    match explicit {
        Some(s) => s,
        None => fallback,
    }
}

fn fold_ascii(b: u8) -> (r: u8)
    ensures
        r == fold_byte(b),
{
    if 65 <= b && b <= 90 {
        b + 32
    } else {
        b
    }
}

/// Tells whether two header names denote the same header.
pub fn names_match(a: &str, b: &str) -> (r: bool)
    ensures
        r == same_name(a@, b@),
{
    let x = a.as_bytes();
    let y = b.as_bytes();
    if x.len() != y.len() {
        proof {
            assert(name_key(a@).len() != name_key(b@).len());
        }
        return false;
    }
    let n: usize = x.len();
    let mut i: usize = 0;
    while i < n
        invariant
            i <= n,
            n == x@.len(),
            n == y@.len(),
            x@ == encode_utf8(a@),
            y@ == encode_utf8(b@),
            forall|j: int| 0 <= j < i ==> fold_byte(x@[j]) == fold_byte(y@[j]),
        decreases n - i,
    {
        if fold_ascii(x[i]) != fold_ascii(y[i]) {
            proof {
                assert(name_key(a@)[i as int] != name_key(b@)[i as int]);
            }
            return false;
        }
        i = i + 1;
    }
    proof {
        assert(name_key(a@) =~= name_key(b@));
    }
    true
}

/// Copies a byte string.
pub fn clone_bytes(v: &Vec<u8>) -> (r: Vec<u8>)
    ensures
        r@ == v@,
{
    let mut out: Vec<u8> = Vec::new();
    let n: usize = v.len();
    let mut i: usize = 0;
    while i < n
        invariant
            i <= n,
            n == v@.len(),
            out@ == v@.take(i as int),
        decreases n - i,
    {
        out.push(v[i]);
        proof {
            assert(v@.take(i as int + 1) =~= v@.take(i as int).push(v@[i as int]));
        }
        i = i + 1;
    }
    proof {
        assert(v@.take(n as int) =~= v@);
    }
    out
}


/// An ordered list of headers; a name may occur several times.
#[derive(Debug)]
pub struct Headers {
    entries: Vec<(String, Vec<u8>)>,
}

impl View for Headers {
    type V = HeaderSeq;

    closed spec fn view(&self) -> HeaderSeq {
        list_view(self.entries@)
    }
}

/// The name and value pairs that a list of entries stands for.
pub open spec fn list_view(list: Seq<(String, Vec<u8>)>) -> HeaderSeq {
    list.map_values(|e: (String, Vec<u8>)| (e.0@, e.1@))
}

/// The byte strings that a list of values stands for.
pub open spec fn values_view(values: Seq<Vec<u8>>) -> Seq<Seq<u8>> {
    values.map_values(|v: Vec<u8>| v@)
}

proof fn lemma_entries_named_step(h: HeaderSeq, i: int, name: Seq<char>)
    requires
        0 <= i < h.len(),
    ensures
        entries_named(h.take(i + 1), name) == if same_name(h[i].0, name) {
            entries_named(h.take(i), name).push(h[i])
        } else {
            entries_named(h.take(i), name)
        },
        values_of(h.take(i + 1), name) == if same_name(h[i].0, name) {
            values_of(h.take(i), name).push(h[i].1)
        } else {
            values_of(h.take(i), name)
        },
{
    reveal(Seq::filter);
    assert(h.take(i + 1).drop_last() =~= h.take(i));
    if same_name(h[i].0, name) {
        assert(values_of(h.take(i + 1), name) =~= values_of(h.take(i), name).push(h[i].1));
    }
}

proof fn lemma_entries_named_empty(name: Seq<char>)
    ensures
        entries_named(Seq::empty(), name) == Seq::<(Seq<char>, Seq<u8>)>::empty(),
        values_of(Seq::empty(), name) == Seq::<Seq<u8>>::empty(),
{
    reveal(Seq::filter);
    assert(values_of(Seq::empty(), name) =~= Seq::<Seq<u8>>::empty());
}

proof fn lemma_has_name_step(h: HeaderSeq, i: int, name: Seq<char>)
    requires
        0 <= i < h.len(),
    ensures
        has_name(h.take(i + 1), name) == (has_name(h.take(i), name) || same_name(h[i].0, name)),
{
    if has_name(h.take(i), name) {
        let j = choose|j: int| 0 <= j < h.take(i).len() && same_name(#[trigger] h.take(i)[j].0, name);
        assert(same_name(h.take(i + 1)[j].0, name));
    }
    if same_name(h[i].0, name) {
        assert(same_name(h.take(i + 1)[i].0, name));
    }
    if has_name(h.take(i + 1), name) {
        let j = choose|j: int|
            0 <= j < h.take(i + 1).len() && same_name(#[trigger] h.take(i + 1)[j].0, name);
        if j < i {
            assert(same_name(h.take(i)[j].0, name));
        }
    }
}

impl Headers {
    /// The empty list.
    pub fn new() -> (r: Headers)
        ensures
            r@ == Seq::<(Seq<char>, Seq<u8>)>::empty(),
    {
        let r = Headers { entries: Vec::new() };
        proof {
            assert(r@ =~= Seq::<(Seq<char>, Seq<u8>)>::empty());
        }
        r
    }

    /// The list with the given entries, in their order.
    pub fn from_list(list: Vec<(String, Vec<u8>)>) -> (r: Headers)
        ensures
            r@ == list_view(list@),
    {
        Headers { entries: list }
    }

    /// The entries, in order.
    pub fn entries(&self) -> (r: &Vec<(String, Vec<u8>)>)
        ensures
            list_view(r@) == self@,
    {
        &self.entries
    }

    /// The number of entries.
    pub fn len(&self) -> (n: usize)
        ensures
            n == self@.len(),
    {
        self.entries.len()
    }

    /// Tells whether the list holds an entry named `name`.
    pub fn has(&self, name: &str) -> (r: bool)
        ensures
            r == has_name(self@, name@),
    {
        let n: usize = self.entries.len();
        let mut i: usize = 0;
        while i < n
            invariant
                i <= n,
                n == self.entries@.len(),
                !has_name(self@.take(i as int), name@),
            decreases n - i,
        {
            if names_match(self.entries[i].0.as_str(), name) {
                proof {
                    assert(same_name(self@[i as int].0, name@));
                }
                return true;
            }
            proof {
                lemma_has_name_step(self@, i as int, name@);
            }
            i = i + 1;
        }
        proof {
            assert(self@.take(n as int) =~= self@);
        }
        false
    }

    /// The values held for `name`, in order.
    pub fn get(&self, name: &str) -> (r: Vec<Vec<u8>>)
        ensures
            values_view(r@) == values_of(self@, name@),
    {
        let mut out: Vec<Vec<u8>> = Vec::new();
        let n: usize = self.entries.len();
        let mut i: usize = 0;
        proof {
            lemma_entries_named_empty(name@);
            assert(self@.take(0) =~= Seq::<(Seq<char>, Seq<u8>)>::empty());
            assert(values_view(out@) =~= values_of(self@.take(0), name@));
        }
        while i < n
            invariant
                i <= n,
                n == self.entries@.len(),
                values_view(out@) == values_of(self@.take(i as int), name@),
            decreases n - i,
        {
            let ghost before = out@;
            if names_match(self.entries[i].0.as_str(), name) {
                out.push(clone_bytes(&self.entries[i].1));
            }
            proof {
                lemma_entries_named_step(self@, i as int, name@);
                assert(values_view(out@) =~= values_of(self@.take(i as int + 1), name@));
            }
            i = i + 1;
        }
        proof {
            assert(self@.take(n as int) =~= self@);
        }
        out
    }

    /// The first value held for `name`.
    pub fn first(&self, name: &str) -> (r: Option<Vec<u8>>)
        ensures
            match r {
                Some(v) => first_value(self@, name@) == Some(v@),
                None => first_value(self@, name@) == None::<Seq<u8>>,
            },
    {
        let n: usize = self.entries.len();
        let mut i: usize = 0;
        proof {
            lemma_entries_named_empty(name@);
            assert(self@.take(0) =~= Seq::<(Seq<char>, Seq<u8>)>::empty());
        }
        while i < n
            invariant
                i <= n,
                n == self.entries@.len(),
                values_of(self@.take(i as int), name@).len() == 0,
            decreases n - i,
        {
            proof {
                lemma_entries_named_step(self@, i as int, name@);
            }
            if names_match(self.entries[i].0.as_str(), name) {
                let v = clone_bytes(&self.entries[i].1);
                proof {
                    lemma_first_value_prefix(self@, i as int + 1, name@);
                }
                return Some(v);
            }
            i = i + 1;
        }
        proof {
            assert(self@.take(n as int) =~= self@);
        }
        None
    }

    /// A copy of the list.
    pub fn duplicate(&self) -> (r: Headers)
        ensures
            r@ == self@,
    {
        let mut out: Vec<(String, Vec<u8>)> = Vec::new();
        let n: usize = self.entries.len();
        let mut i: usize = 0;
        while i < n
            invariant
                i <= n,
                n == self.entries@.len(),
                list_view(out@) == self@.take(i as int),
            decreases n - i,
        {
            let ghost before = out@;
            out.push((self.entries[i].0.clone(), clone_bytes(&self.entries[i].1)));
            proof {
                assert(list_view(out@) =~= list_view(before).push(self@[i as int]));
                assert(self@.take(i as int + 1) =~= self@.take(i as int).push(self@[i as int]));
            }
            i = i + 1;
        }
        proof {
            assert(self@.take(n as int) =~= self@);
        }
        Headers { entries: out }
    }

    /// Gives `name` the single value `value`: every earlier value for that
    /// name is dropped and the new entry is put last.
    pub fn set(&mut self, name: &str, value: Vec<u8>)
        ensures
            final(self)@ == with_set(old(self)@, name@, value@),
    {
        let mut out: Vec<(String, Vec<u8>)> = Vec::new();
        let n: usize = self.entries.len();
        let mut i: usize = 0;
        proof {
            lemma_without_name_empty(name@);
            assert(self@.take(0) =~= Seq::<(Seq<char>, Seq<u8>)>::empty());
            assert(list_view(out@) =~= without_name(self@.take(0), name@));
        }
        while i < n
            invariant
                i <= n,
                n == self.entries@.len(),
                list_view(out@) == without_name(self@.take(i as int), name@),
            decreases n - i,
        {
            if !names_match(self.entries[i].0.as_str(), name) {
                out.push((self.entries[i].0.clone(), clone_bytes(&self.entries[i].1)));
            }
            proof {
                lemma_without_name_step(self@, i as int, name@);
                assert(list_view(out@) =~= without_name(self@.take(i as int + 1), name@));
            }
            i = i + 1;
        }
        proof {
            assert(self@.take(n as int) =~= self@);
        }
        out.push((name.to_owned(), value));
        proof {
            assert(list_view(out@) =~= with_set(self@, name@, value@));
        }
        self.entries = out;
    }

    /// Adds the value `value` for `name` after all the entries.
    pub fn append(&mut self, name: &str, value: Vec<u8>)
        ensures
            final(self)@ == old(self)@.push((name@, value@)),
    {
        self.entries.push((name.to_owned(), value));
        proof {
            assert(self@ =~= old(self)@.push((name@, value@)));
        }
    }
}

proof fn lemma_without_name_step(h: HeaderSeq, i: int, name: Seq<char>)
    requires
        0 <= i < h.len(),
    ensures
        without_name(h.take(i + 1), name) == if same_name(h[i].0, name) {
            without_name(h.take(i), name)
        } else {
            without_name(h.take(i), name).push(h[i])
        },
{
    reveal(Seq::filter);
    assert(h.take(i + 1).drop_last() =~= h.take(i));
}

proof fn lemma_without_name_empty(name: Seq<char>)
    ensures
        without_name(Seq::empty(), name) == Seq::<(Seq<char>, Seq<u8>)>::empty(),
{
    reveal(Seq::filter);
}

proof fn lemma_untouched_step(h: HeaderSeq, i: int, overlay: HeaderSeq)
    requires
        0 <= i < h.len(),
    ensures
        untouched(h.take(i + 1), overlay) == if has_name(overlay, h[i].0) {
            untouched(h.take(i), overlay)
        } else {
            untouched(h.take(i), overlay).push(h[i])
        },
{
    reveal(Seq::filter);
    assert(h.take(i + 1).drop_last() =~= h.take(i));
}

proof fn lemma_untouched_empty(overlay: HeaderSeq)
    ensures
        untouched(Seq::empty(), overlay) == Seq::<(Seq<char>, Seq<u8>)>::empty(),
{
    reveal(Seq::filter);
}

/// Merges two header lists: every name that occurs in `h2` loses the values
/// it had in `h1`; the other entries of `h1` keep their order, and the entries
/// of `h2` follow them.
pub fn merge_headers(h1: Headers, h2: Headers) -> (r: Headers)
    ensures
        r@ == merged(h1@, h2@),
{
    let mut out: Vec<(String, Vec<u8>)> = Vec::new();
    let n: usize = h1.entries.len();
    let mut i: usize = 0;
    proof {
        lemma_untouched_empty(h2@);
        assert(h1@.take(0) =~= Seq::<(Seq<char>, Seq<u8>)>::empty());
        assert(list_view(out@) =~= untouched(h1@.take(0), h2@));
    }
    while i < n
        invariant
            i <= n,
            n == h1.entries@.len(),
            list_view(out@) == untouched(h1@.take(i as int), h2@),
        decreases n - i,
    {
        if !h2.has(h1.entries[i].0.as_str()) {
            out.push((h1.entries[i].0.clone(), clone_bytes(&h1.entries[i].1)));
        }
        proof {
            lemma_untouched_step(h1@, i as int, h2@);
            assert(list_view(out@) =~= untouched(h1@.take(i as int + 1), h2@));
        }
        i = i + 1;
    }
    proof {
        assert(h1@.take(n as int) =~= h1@);
    }
    let m: usize = h2.entries.len();
    let mut j: usize = 0;
    proof {
        assert(list_view(out@) =~= untouched(h1@, h2@) + h2@.take(0));
    }
    while j < m
        invariant
            j <= m,
            m == h2.entries@.len(),
            list_view(out@) == untouched(h1@, h2@) + h2@.take(j as int),
        decreases m - j,
    {
        let ghost before = out@;
        out.push((h2.entries[j].0.clone(), clone_bytes(&h2.entries[j].1)));
        proof {
            assert(list_view(out@) =~= list_view(before).push(h2@[j as int]));
            assert(h2@.take(j as int + 1) =~= h2@.take(j as int).push(h2@[j as int]));
            assert(list_view(out@) =~= untouched(h1@, h2@) + h2@.take(j as int + 1));
        }
        j = j + 1;
    }
    proof {
        assert(h2@.take(m as int) =~= h2@);
    }
    Headers { entries: out }
}

/// What the untouched part of `primary` holds for a name: nothing if
/// `overlay` names it, else all that `primary` holds for it.
proof fn lemma_untouched_named(primary: HeaderSeq, overlay: HeaderSeq, name: Seq<char>)
    ensures
        entries_named(untouched(primary, overlay), name) == if has_name(overlay, name) {
            Seq::<(Seq<char>, Seq<u8>)>::empty()
        } else {
            entries_named(primary, name)
        },
    decreases primary.len(),
{
    reveal(Seq::filter);
    if primary.len() > 0 {
        let rest = primary.drop_last();
        let e = primary.last();
        lemma_untouched_named(rest, overlay, name);
        if same_name(e.0, name) {
            lemma_has_name_same(overlay, e.0, name);
        }
        if !has_name(overlay, e.0) {
            let kept = untouched(rest, overlay);
            assert(untouched(primary, overlay) == kept.push(e));
            assert(kept.push(e).drop_last() =~= kept);
            assert(kept.push(e).last() == e);
        }
    }
}

/// Names that denote the same header occur in the same lists.
proof fn lemma_has_name_same(h: HeaderSeq, a: Seq<char>, b: Seq<char>)
    requires
        same_name(a, b),
    ensures
        has_name(h, a) == has_name(h, b),
{
    if has_name(h, a) {
        let i = choose|i: int| 0 <= i < h.len() && same_name(#[trigger] h[i].0, a);
        assert(same_name(h[i].0, b));
    }
    if has_name(h, b) {
        let i = choose|i: int| 0 <= i < h.len() && same_name(#[trigger] h[i].0, b);
        assert(same_name(h[i].0, a));
    }
}

/// A list holds an entry for a name exactly if it holds a value for it.
pub proof fn lemma_has_name_values(h: HeaderSeq, name: Seq<char>)
    ensures
        has_name(h, name) <==> values_of(h, name).len() > 0,
    decreases h.len(),
{
    reveal(Seq::filter);
    if h.len() > 0 {
        let rest = h.drop_last();
        lemma_has_name_values(rest, name);
        assert(rest =~= h.take(h.len() - 1));
        lemma_has_name_step(h, h.len() - 1, name);
        assert(h.take(h.len() as int) =~= h);
    }
}

/// After a merge, a name that the overlay holds has exactly the overlay's
/// values, in the overlay's order, and any other name has exactly the values
/// that the primary list held, in their order.
pub proof fn lemma_merge_values(primary: HeaderSeq, overlay: HeaderSeq, name: Seq<char>)
    ensures
        values_of(merged(primary, overlay), name) == if has_name(overlay, name) {
            values_of(overlay, name)
        } else {
            values_of(primary, name)
        },
{
    broadcast use Seq::filter_distributes_over_add;

    lemma_untouched_named(primary, overlay, name);
    lemma_has_name_values(overlay, name);
    assert(entries_named(merged(primary, overlay), name) == entries_named(
        untouched(primary, overlay),
        name,
    ) + entries_named(overlay, name));
    if has_name(overlay, name) {
        assert(entries_named(merged(primary, overlay), name) =~= entries_named(overlay, name));
    } else {
        assert(entries_named(overlay, name).len() == 0);
        assert(entries_named(merged(primary, overlay), name) =~= entries_named(primary, name));
    }
}

/// A merge keeps every entry of the overlay, and of the primary list
/// exactly the entries whose name the overlay does not hold: its length is
/// the sum of the two parts.
pub proof fn lemma_merge_parts(primary: HeaderSeq, overlay: HeaderSeq)
    ensures
        merged(primary, overlay).len() == untouched(primary, overlay).len() + overlay.len(),
        forall|j: int|
            0 <= j < overlay.len() ==> merged(primary, overlay)[untouched(primary, overlay).len()
                + j] == overlay[j],
        forall|i: int|
            0 <= i < untouched(primary, overlay).len() ==> !has_name(
                overlay,
                (#[trigger] merged(primary, overlay)[i]).0,
            ),
{
    broadcast use Seq::lemma_filter_pred;

    assert forall|i: int| 0 <= i < untouched(primary, overlay).len() implies !has_name(
        overlay,
        (#[trigger] merged(primary, overlay)[i]).0,
    ) by {
        assert(merged(primary, overlay)[i] == untouched(primary, overlay)[i]);
        primary.lemma_filter_pred(|e: (Seq<char>, Seq<u8>)| !has_name(overlay, e.0), i);
    }
}

/// A first value found in a prefix of a list is the first value in the list.
proof fn lemma_first_value_prefix(h: HeaderSeq, k: int, name: Seq<char>)
    requires
        0 <= k <= h.len(),
        values_of(h.take(k), name).len() > 0,
    ensures
        first_value(h, name) == first_value(h.take(k), name),
{
    assert(h =~= h.take(k) + h.skip(k));
    broadcast use Seq::filter_distributes_over_add;
    assert(entries_named(h, name) == entries_named(h.take(k), name) + entries_named(
        h.skip(k),
        name,
    ));
}


/// How the first value for a name is found by a scan from the front: in a
/// prefix without it, the next entry decides; once found it stays.
pub proof fn lemma_first_value_scan(h: HeaderSeq, k: int, name: Seq<char>)
    requires
        0 <= k <= h.len(),
    ensures
        k == 0 ==> first_value(h.take(0), name) is None,
        k > 0 && first_value(h.take(k - 1), name) is None ==> first_value(h.take(k), name) == if same_name(
            h[k - 1].0,
            name,
        ) {
            Some(h[k - 1].1)
        } else {
            None
        },
        first_value(h.take(k), name) is Some ==> first_value(h, name) == first_value(
            h.take(k),
            name,
        ),
{
    if k == 0 {
        lemma_entries_named_empty(name);
        assert(h.take(0) =~= Seq::<(Seq<char>, Seq<u8>)>::empty());
    } else {
        lemma_entries_named_step(h, k - 1, name);
    }
    if first_value(h.take(k), name) is Some {
        lemma_first_value_prefix(h, k, name);
    }
}


/// What a list holds for a name once a header was set: the new value alone
/// for the header that was set, and for any other header what it held.
pub proof fn lemma_with_set_values(h: HeaderSeq, name: Seq<char>, value: Seq<u8>, query: Seq<char>)
    ensures
        values_of(with_set(h, name, value), query) == if same_name(name, query) {
            seq![value]
        } else {
            values_of(h, query)
        },
        has_name(with_set(h, name, value), name),
{
    lemma_without_named(h, name, query);
    let kept = without_name(h, name);
    reveal(Seq::filter);
    assert(kept.push((name, value)).drop_last() =~= kept);
    if same_name(name, query) {
        assert(values_of(with_set(h, name, value), query) =~= seq![value]);
    } else {
        assert(values_of(with_set(h, name, value), query) =~= values_of(h, query));
    }
    assert(same_name(with_set(h, name, value)[kept.len() as int].0, name));
}

/// What a list holds for a name once the entries of a header were taken
/// out: nothing for that header, and for any other header what it held.
proof fn lemma_without_named(h: HeaderSeq, name: Seq<char>, query: Seq<char>)
    ensures
        entries_named(without_name(h, name), query) == if same_name(name, query) {
            Seq::<(Seq<char>, Seq<u8>)>::empty()
        } else {
            entries_named(h, query)
        },
    decreases h.len(),
{
    reveal(Seq::filter);
    if h.len() > 0 {
        let rest = h.drop_last();
        let e = h.last();
        lemma_without_named(rest, name, query);
        if !same_name(e.0, name) {
            let kept = without_name(rest, name);
            assert(without_name(h, name) == kept.push(e));
            assert(kept.push(e).drop_last() =~= kept);
            assert(kept.push(e).last() == e);
        }
    }
}

/// Tells whether two byte strings are the same.
pub fn bytes_equal(a: &[u8], b: &[u8]) -> (r: bool)
    ensures
        r == (a@ == b@),
{
    if a.len() != b.len() {
        return false;
    }
    let n: usize = a.len();
    let mut i: usize = 0;
    while i < n
        invariant
            i <= n,
            n == a@.len(),
            n == b@.len(),
            forall|k: int| 0 <= k < i ==> a@[k] == b@[k],
        decreases n - i,
    {
        if a[i] != b[i] {
            return false;
        }
        i = i + 1;
    }
    proof {
        assert(a@ =~= b@);
    }
    true
}

} // verus!
