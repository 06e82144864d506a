//! An ordered store of header fields whose names are compared without regard
//! to ASCII case.

use vstd::prelude::*;
use crate::text::wire;

verus! {

/// The fields of a header block, in order: each a name and a value.
pub type Fields = Seq<(Seq<char>, Seq<char>)>;

/// A byte with an ASCII capital letter replaced by its small letter.
pub open spec fn fold(b: u8) -> u8 {
    if 0x41 <= b <= 0x5a {
        (b + 32) as u8
    } else {
        b
    }
}

/// Whether two names are the same but for the case of their ASCII letters.
pub open spec fn same_name(a: Seq<char>, b: Seq<char>) -> bool {
    &&& wire(a).len() == wire(b).len()
    &&& forall|i: int| 0 <= i < wire(a).len() ==> fold(#[trigger] wire(a)[i]) == fold(wire(b)[i])
}

/// The index of the first field at or after `from` whose name is `name`, or
/// the number of fields if there is none.
pub open spec fn first_match_from(fields: Fields, name: Seq<char>, from: int) -> int
    decreases fields.len() - from,
{
    if from < 0 || from >= fields.len() {
        fields.len() as int
    } else if same_name(fields[from].0, name) {
        from
    } else {
        first_match_from(fields, name, from + 1)
    }
}

/// The index of the first field whose name is `name`, or the number of
/// fields if there is none.
pub open spec fn position(fields: Fields, name: Seq<char>) -> int {
    first_match_from(fields, name, 0)
}

/// Whether some field is named `name`.
pub open spec fn has_name(fields: Fields, name: Seq<char>) -> bool {
    position(fields, name) < fields.len()
}

/// The value of the first field named `name`.
pub open spec fn value_of(fields: Fields, name: Seq<char>) -> Option<Seq<char>> {
    if has_name(fields, name) {
        Some(fields[position(fields, name)].1)
    } else {
        None
    }
}

/// The fields after `name` was given `value`: the first field of that name
/// keeps its place and its spelling and takes the value; without such a field
/// a new one is added at the end.
pub open spec fn inserted(fields: Fields, name: Seq<char>, value: Seq<char>) -> Fields {
    let p = position(fields, name);
    if p < fields.len() {
        fields.update(p, (fields[p].0, value))
    } else {
        fields.push((name, value))
    }
}

/// The fields without those named `name`.
pub open spec fn removed(fields: Fields, name: Seq<char>) -> Fields {
    fields.filter(|f: (Seq<char>, Seq<char>)| !same_name(f.0, name))
}

/// The fields after each field of `extra` was given to them in turn, as
/// `inserted` does.
pub open spec fn merged(fields: Fields, extra: Fields) -> Fields
    decreases extra.len(),
{
    if extra.len() == 0 {
        fields
    } else {
        inserted(merged(fields, extra.drop_last()), extra.last().0, extra.last().1)
    }
}

/// No two fields have the same name.
pub open spec fn distinct_names(fields: Fields) -> bool {
    forall|i: int, j: int|
        0 <= i < j < fields.len() ==> !same_name(#[trigger] fields[i].0, #[trigger] fields[j].0)
}

/// `same_name` is an equivalence.
pub proof fn lemma_same_name_equivalence(a: Seq<char>, b: Seq<char>, c: Seq<char>)
    ensures
        same_name(a, a),
        same_name(a, b) == same_name(b, a),
        same_name(a, b) && same_name(b, c) ==> same_name(a, c),
{
    if same_name(a, b) {
        assert forall|i: int| 0 <= i < wire(b).len() implies fold(#[trigger] wire(b)[i]) == fold(
            wire(a)[i],
        ) by {
            assert(fold(wire(a)[i]) == fold(wire(b)[i]));
        }
    }
    if same_name(b, a) {
        assert forall|i: int| 0 <= i < wire(a).len() implies fold(#[trigger] wire(a)[i]) == fold(
            wire(b)[i],
        ) by {
            assert(fold(wire(b)[i]) == fold(wire(a)[i]));
        }
    }
    if same_name(a, b) && same_name(b, c) {
        assert forall|i: int| 0 <= i < wire(a).len() implies fold(#[trigger] wire(a)[i]) == fold(
            wire(c)[i],
        ) by {
            assert(fold(wire(a)[i]) == fold(wire(b)[i]));
            assert(fold(wire(b)[i]) == fold(wire(c)[i]));
        }
    }
}

/// What `first_match_from` finds: it lies between `from` and the number of
/// fields, no field from `from` up to it has the name, and the field at it,
/// if there is one, has the name.
pub proof fn lemma_first_match_from(fields: Fields, name: Seq<char>, from: int)
    requires
        0 <= from <= fields.len(),
    ensures
        from <= first_match_from(fields, name, from) <= fields.len(),
        forall|k: int|
            from <= k < first_match_from(fields, name, from) ==> !same_name(
                (#[trigger] fields[k]).0,
                name,
            ),
        first_match_from(fields, name, from) < fields.len() ==> same_name(
            fields[first_match_from(fields, name, from)].0,
            name,
        ),
    decreases fields.len() - from,
{
    if from < fields.len() && !same_name(fields[from].0, name) {
        lemma_first_match_from(fields, name, from + 1);
    }
}

/// An index with the name before which no field has the name is the one
/// that `position` finds.
pub proof fn lemma_position_unique(fields: Fields, name: Seq<char>, p: int)
    requires
        0 <= p <= fields.len(),
        forall|k: int| 0 <= k < p ==> !same_name((#[trigger] fields[k]).0, name),
        p < fields.len() ==> same_name(fields[p].0, name),
    ensures
        position(fields, name) == p,
{
    lemma_first_match_from(fields, name, 0);
    let q = position(fields, name);
    if q < p {
        assert(!same_name(fields[q].0, name));
    } else if p < q {
        assert(!same_name(fields[p].0, name));
    }
}

/// Names that are the same are found at the same place.
pub proof fn lemma_position_of_same_name(fields: Fields, a: Seq<char>, b: Seq<char>)
    requires
        same_name(a, b),
    ensures
        position(fields, a) == position(fields, b),
{
    lemma_first_match_from(fields, a, 0);
    let p = position(fields, a);
    assert forall|k: int| 0 <= k < p implies !same_name((#[trigger] fields[k]).0, b) by {
        lemma_same_name_equivalence(fields[k].0, b, a);
        lemma_same_name_equivalence(a, b, b);
    }
    if p < fields.len() {
        lemma_same_name_equivalence(fields[p].0, a, b);
    }
    lemma_position_unique(fields, b, p);
}

/// Whether two names are the same but for the case of their ASCII letters.
pub fn name_eq(a: &str, b: &str) -> (same: bool)
    ensures
        same == same_name(a@, b@),
{
    let x = a.as_bytes();
    let y = b.as_bytes();
    if x.len() != y.len() {
        return false;
    }
    let mut i: usize = 0;
    while i < x.len()
        invariant
            x@ == wire(a@),
            y@ == wire(b@),
            x.len() == y.len(),
            i <= x.len(),
            forall|k: int| 0 <= k < i ==> fold(#[trigger] x@[k]) == fold(y@[k]),
        decreases x.len() - i,
    {
        if fold_byte(x[i]) != fold_byte(y[i]) {
            return false;
        }
        i += 1;
    }
    true
}

fn fold_byte(b: u8) -> (folded: u8)
    ensures
        folded == fold(b),
{
    if 0x41 <= b && b <= 0x5a {
        b + 32
    } else {
        b
    }
}

/// The fields that stored strings stand for.
pub open spec fn fields_view(stored: Seq<(String, String)>) -> Fields {
    stored.map_values(|f: (String, String)| (f.0@, f.1@))
}

/// Header fields in the order in which they were added. Names are compared
/// without regard to ASCII case, and no two fields have the same name.
#[derive(Debug)]
pub struct Headers {
    fields: Vec<(String, String)>,
}

impl View for Headers {
    type V = Fields;

    closed spec fn view(&self) -> Fields {
        fields_view(self.fields@)
    }
}

impl Clone for Headers {
    fn clone(&self) -> (copy: Self)
        ensures
            copy@ == self@,
    {
        proof {
            use_type_invariant(self);
        }
        Headers { fields: self.iter() }
    }
}

impl Headers {
    #[verifier::type_invariant]
    closed spec fn well_formed(&self) -> bool {
        distinct_names(self@)
    }

    /// No two fields of a store have the same name.
    pub fn names_are_distinct(&self)
        ensures
            distinct_names(self@),
    {
        proof {
            use_type_invariant(self);
        }
    }

    /// A store without fields.
    pub fn new() -> (headers: Headers)
        ensures
            headers@ == Fields::empty(),
    {
        let headers = Headers { fields: Vec::new() };
        assert(headers@ =~= Fields::empty());
        headers
    }

    /// The number of fields.
    pub fn len(&self) -> (n: usize)
        ensures
            n == self@.len(),
    {
        self.fields.len()
    }

    fn find(&self, name: &str) -> (p: usize)
        ensures
            p == position(self@, name@),
            p <= self@.len(),
    {
        let mut i: usize = 0;
        while i < self.fields.len()
            invariant
                i <= self.fields.len(),
                self@.len() == self.fields.len(),
                position(self@, name@) == first_match_from(self@, name@, i as int),
            decreases self.fields.len() - i,
        {
            if name_eq(self.fields[i].0.as_str(), name) {
                return i;
            }
            i += 1;
        }
        i
    }

    /// The value of the first field named `name`.
    pub fn get(&self, name: &str) -> (value: Option<String>)
        ensures
            match value {
                Some(v) => value_of(self@, name@) == Some(v@),
                None => value_of(self@, name@).is_none(),
            },
    {
        let p = self.find(name);
        if p < self.fields.len() {
            Some(self.fields[p].1.clone())
        } else {
            None
        }
    }

    /// Gives `name` the value `value`: the field of that name keeps its place
    /// and its spelling; without such a field a new one is added at the end.
    pub fn insert(&mut self, name: &str, value: &str)
        ensures
            final(self)@ == inserted(old(self)@, name@, value@),
    {
        proof {
            use_type_invariant(&*self);
            lemma_inserted_distinct(self@, name@, value@);
        }
        let p = self.find(name);
        let mut fields = self.take_fields();
        if p < fields.len() {
            let kept = fields[p].0.clone();
            fields.set(p, (kept, value.to_owned()));
        } else {
            fields.push((name.to_owned(), value.to_owned()));
        }
        assert(fields_view(fields@) =~= inserted(old(self)@, name@, value@));
        self.fields = fields;
    }

    /// Takes out every field named `name`.
    pub fn remove(&mut self, name: &str)
        ensures
            final(self)@ == removed(old(self)@, name@),
    {
        proof {
            use_type_invariant(&*self);
            lemma_removed(self@, name@);
        }
        let p = self.find(name);
        let mut fields = self.take_fields();
        if p < fields.len() {
            fields.remove(p);
        }
        assert(fields_view(fields@) =~= removed(old(self)@, name@));
        self.fields = fields;
    }

    /// Gives each field of `extra`, in order, to this store.
    pub fn extend(&mut self, extra: &Headers)
        ensures
            final(self)@ == merged(old(self)@, extra@),
    {
        let mut i: usize = 0;
        assert(extra@.take(0) =~= Fields::empty());
        while i < extra.fields.len()
            invariant
                i <= extra.fields.len(),
                extra@.len() == extra.fields.len(),
                self@ == merged(old(self)@, extra@.take(i as int)),
            decreases extra.fields.len() - i,
        {
            proof {
                assert(extra@.take(i + 1).drop_last() =~= extra@.take(i as int));
                assert(extra@.take(i + 1).last() == extra@[i as int]);
            }
            self.insert(extra.fields[i].0.as_str(), extra.fields[i].1.as_str());
            i += 1;
        }
        assert(extra@.take(i as int) =~= extra@);
    }

    /// The fields in order, each as a name and a value.
    pub fn iter(&self) -> (fields: Vec<(String, String)>)
        ensures
            fields_view(fields@) == self@,
    {
        let mut fields: Vec<(String, String)> = Vec::new();
        let mut i: usize = 0;
        while i < self.fields.len()
            invariant
                i <= self.fields.len(),
                fields@.len() == i,
                forall|k: int| 0 <= k < i ==> fields@[k] == self.fields@[k],
            decreases self.fields.len() - i,
        {
            fields.push((self.fields[i].0.clone(), self.fields[i].1.clone()));
            i += 1;
        }
        assert(fields@ =~= self.fields@);
        fields
    }

    /// The fields that every request to `host` starts with: its `Host`
    /// field.
    pub fn default_http(host: &str) -> (headers: Headers)
        ensures
            headers@ == seq![("Host"@, host@)],
    {
        let mut fields: Vec<(String, String)> = Vec::new();
        fields.push(("Host".to_owned(), host.to_owned()));
        assert(fields_view(fields@) =~= seq![("Host"@, host@)]);
        Headers { fields }
    }

    /// Moves the fields out, to be changed and put back.
    fn take_fields(&mut self) -> (fields: Vec<(String, String)>)
        ensures
            fields_view(fields@) == old(self)@,
            final(self)@ == Fields::empty(),
    {
        let mut fields: Vec<(String, String)> = Vec::new();
        assert(fields_view(fields@) =~= Fields::empty());
        std::mem::swap(&mut self.fields, &mut fields);
        fields
    }
}

/// Giving a name a value keeps the names distinct.
pub proof fn lemma_inserted_distinct(fields: Fields, name: Seq<char>, value: Seq<char>)
    requires
        distinct_names(fields),
    ensures
        distinct_names(inserted(fields, name, value)),
{
    lemma_first_match_from(fields, name, 0);
    let p = position(fields, name);
    let after = inserted(fields, name, value);
    assert forall|i: int, j: int| 0 <= i < j < after.len() implies !same_name(
        #[trigger] after[i].0,
        #[trigger] after[j].0,
    ) by {
        if p < fields.len() {
            assert(after[i].0 == fields[i].0);
            assert(after[j].0 == fields[j].0);
        } else if j < fields.len() {
            assert(after[i].0 == fields[i].0);
            assert(after[j].0 == fields[j].0);
        } else {
            assert(!same_name(fields[i].0, name));
        }
    }
}

/// A sequence all of whose items pass a filter passes it whole.
proof fn lemma_filter_keeps_all<A>(s: Seq<A>, pred: spec_fn(A) -> bool)
    requires
        forall|i: int| 0 <= i < s.len() ==> pred(#[trigger] s[i]),
    ensures
        s.filter(pred) == s,
    decreases s.len(),
{
    reveal(Seq::filter);
    if s.len() > 0 {
        assert forall|i: int| 0 <= i < s.drop_last().len() implies pred(
            #[trigger] s.drop_last()[i],
        ) by {
            assert(s.drop_last()[i] == s[i]);
        }
        lemma_filter_keeps_all(s.drop_last(), pred);
        assert(s.drop_last().push(s.last()) =~= s);
    }
}

/// Among distinct names, taking out a name takes out the one field that
/// `position` finds, and leaves the names distinct.
pub proof fn lemma_removed(fields: Fields, name: Seq<char>)
    requires
        distinct_names(fields),
    ensures
        removed(fields, name) == if has_name(fields, name) {
            fields.remove(position(fields, name))
        } else {
            fields
        },
        distinct_names(removed(fields, name)),
        !has_name(removed(fields, name), name),
{
    let pred = |f: (Seq<char>, Seq<char>)| !same_name(f.0, name);
    lemma_first_match_from(fields, name, 0);
    let p = position(fields, name);
    if p < fields.len() {
        let head = fields.take(p);
        let tail = fields.skip(p + 1);
        assert forall|i: int| 0 <= i < tail.len() implies pred(#[trigger] tail[i]) by {
            assert(tail[i] == fields[p + 1 + i]);
            if same_name(fields[p + 1 + i].0, name) {
                lemma_same_name_equivalence(fields[p].0, name, fields[p + 1 + i].0);
                lemma_same_name_equivalence(name, fields[p + 1 + i].0, name);
                assert(!same_name(fields[p].0, fields[p + 1 + i].0));
            }
        }
        lemma_filter_keeps_all(head, pred);
        lemma_filter_keeps_all(tail, pred);
        let mid = seq![fields[p]];
        assert(mid.filter(pred) =~= Seq::empty()) by {
            reveal_with_fuel(Seq::filter, 2);
            assert(mid.drop_last() =~= Seq::empty());
        }
        assert(fields =~= head + mid + tail);
        Seq::filter_distributes_over_add(head + mid, tail, pred);
        Seq::filter_distributes_over_add(head, mid, pred);
        assert(removed(fields, name) =~= fields.remove(p));
        let after = fields.remove(p);
        assert forall|i: int, j: int| 0 <= i < j < after.len() implies !same_name(
            #[trigger] after[i].0,
            #[trigger] after[j].0,
        ) by {
            let i0 = if i < p { i } else { i + 1 };
            let j0 = if j < p { j } else { j + 1 };
            assert(after[i] == fields[i0]);
            assert(after[j] == fields[j0]);
        }
        assert forall|k: int| 0 <= k < after.len() implies !same_name(
            (#[trigger] after[k]).0,
            name,
        ) by {
            if k < p {
                assert(after[k] == head[k]);
                assert(after[k] == fields[k]);
            } else {
                assert(after[k] == tail[k - p]);
                assert(pred(tail[k - p]));
            }
        }
        lemma_position_unique(after, name, after.len() as int);
    } else {
        lemma_filter_keeps_all(fields, pred);
    }
}

/// A field that was given a value has that value, under every spelling of
/// its name.
pub proof fn lemma_value_of_inserted(fields: Fields, name: Seq<char>, value: Seq<char>)
    ensures
        value_of(inserted(fields, name, value), name) == Some(value),
        position(inserted(fields, name, value), name) == position(fields, name),
        inserted(fields, name, value).len() == if has_name(fields, name) {
            fields.len()
        } else {
            fields.len() + 1
        },
{
    lemma_first_match_from(fields, name, 0);
    let p = position(fields, name);
    let after = inserted(fields, name, value);
    assert forall|k: int| 0 <= k < p implies !same_name((#[trigger] after[k]).0, name) by {
        assert(after[k] == fields[k]);
    }
    if p == fields.len() {
        lemma_same_name_equivalence(name, name, name);
    }
    lemma_position_unique(after, name, p);
}

/// Giving a value to a name twice, the second time in whatever case, is
/// giving it the second value once: the field keeps the place and the
/// spelling that it had first.
pub proof fn lemma_inserted_twice(
    fields: Fields,
    first: Seq<char>,
    second: Seq<char>,
    old_value: Seq<char>,
    new_value: Seq<char>,
)
    requires
        same_name(first, second),
    ensures
        inserted(inserted(fields, first, old_value), second, new_value) == inserted(
            fields,
            first,
            new_value,
        ),
{
    let once = inserted(fields, first, old_value);
    lemma_value_of_inserted(fields, first, old_value);
    lemma_position_of_same_name(once, first, second);
    lemma_first_match_from(fields, first, 0);
    assert(inserted(once, second, new_value) =~= inserted(fields, first, new_value));
}

/// Giving fields to fields with distinct names keeps the names distinct.
pub proof fn lemma_merged_keeps_distinct(fields: Fields, extra: Fields)
    requires
        distinct_names(fields),
    ensures
        distinct_names(merged(fields, extra)),
    decreases extra.len(),
{
    if extra.len() > 0 {
        lemma_merged_keeps_distinct(fields, extra.drop_last());
        lemma_inserted_distinct(merged(fields, extra.drop_last()), extra.last().0, extra.last().1);
    }
}

/// Fields with distinct names, given one by one to an empty store, are
/// the store's fields.
pub proof fn lemma_merged_distinct(fields: Fields)
    requires
        distinct_names(fields),
    ensures
        merged(Seq::empty(), fields) == fields,
    decreases fields.len(),
{
    if fields.len() > 0 {
        let before = fields.drop_last();
        let last = fields.last();
        assert forall|i: int, j: int| 0 <= i < j < before.len() implies !same_name(
            #[trigger] before[i].0,
            #[trigger] before[j].0,
        ) by {
            assert(before[i] == fields[i] && before[j] == fields[j]);
        }
        lemma_merged_distinct(before);
        assert forall|k: int| 0 <= k < before.len() implies !same_name(
            (#[trigger] before[k]).0,
            last.0,
        ) by {
            assert(before[k] == fields[k]);
            assert(!same_name(fields[k].0, fields[fields.len() - 1].0));
        }
        lemma_position_unique(before, last.0, before.len() as int);
        assert(inserted(before, last.0, last.1) =~= fields);
    } else {
        assert(fields =~= Seq::empty());
    }
}

/// The ASCII letters of a character folded to small letters.
pub open spec fn fold_char(c: char) -> char {
    if 'A' <= c <= 'Z' {
        ((c as u32) + 32) as char
    } else {
        c
    }
}

/// For names of ASCII characters, to be the same name is to have the same
/// length and, place by place, the same character once capital letters are
/// made small.
pub proof fn lemma_same_name_ascii(a: Seq<char>, b: Seq<char>)
    requires
        vstd::utf8::is_ascii_chars(a),
        vstd::utf8::is_ascii_chars(b),
    ensures
        same_name(a, b) <==> (a.len() == b.len() && forall|i: int|
            0 <= i < a.len() ==> fold_char(#[trigger] a[i]) == fold_char(b[i])),
{
    vstd::utf8::is_ascii_chars_encode_utf8(a);
    vstd::utf8::is_ascii_chars_encode_utf8(b);
    if same_name(a, b) {
        assert forall|i: int| 0 <= i < a.len() implies fold_char(#[trigger] a[i]) == fold_char(
            b[i],
        ) by {
            assert(fold(wire(a)[i]) == fold(wire(b)[i]));
            lemma_fold_char(a[i], b[i]);
        }
    }
    if a.len() == b.len() && (forall|i: int|
        0 <= i < a.len() ==> fold_char(#[trigger] a[i]) == fold_char(b[i])) {
        assert forall|i: int| 0 <= i < wire(a).len() implies fold(#[trigger] wire(a)[i]) == fold(
            wire(b)[i],
        ) by {
            assert(fold_char(a[i]) == fold_char(b[i]));
            lemma_fold_char(a[i], b[i]);
        }
    }
}

/// Folding an ASCII character is folding its byte.
proof fn lemma_fold_char(x: char, y: char)
    requires
        '\0' <= x <= '\u{7f}',
        '\0' <= y <= '\u{7f}',
    ensures
        (fold_char(x) == fold_char(y)) <==> (fold(x as u8) == fold(y as u8)),
{
    let fx = fold_char(x);
    let fy = fold_char(y);
    assert(fx as u32 == fold(x as u8) as u32);
    assert(fy as u32 == fold(y as u8) as u32);
    if fold(x as u8) == fold(y as u8) {
        vstd::utf8::char_u32_cast(fx, fx as u32);
        vstd::utf8::char_u32_cast(fy, fy as u32);
    }
}

} // verus!
