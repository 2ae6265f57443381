//! Header fields for a request, kept in the order of their names.
use vstd::prelude::*;
use vstd::string::StringExecFns;
use vstd::utf8::encode_utf8;

verus! {

/// Whether one byte string comes before another in lexicographic order.
pub open spec fn comes_before(a: Seq<u8>, b: Seq<u8>) -> bool
    decreases a.len(),
{
    if b.len() == 0 {
        false
    } else if a.len() == 0 {
        true
    } else if a[0] != b[0] {
        a[0] < b[0]
    } else {
        comes_before(a.skip(1), b.skip(1))
    }
}

proof fn lemma_total(a: Seq<u8>, b: Seq<u8>)
    ensures
        a != b ==> comes_before(a, b) || comes_before(b, a),
        comes_before(a, b) ==> !comes_before(b, a),
        !comes_before(a, a),
    decreases a.len(),
{
    if a.len() == 0 {
        assert(b.len() == 0 ==> a =~= b);
    } else if b.len() == 0 {
        lemma_total(a.skip(1), b);
    } else {
        lemma_total(a.skip(1), b.skip(1));
        if a[0] == b[0] && a.skip(1) == b.skip(1) {
            assert forall|i: int| 0 <= i < a.len() implies a[i] == b[i] by {
                if i > 0 {
                    assert(a[i] == a.skip(1)[i - 1]);
                    assert(b[i] == b.skip(1)[i - 1]);
                }
            }
            assert(a.len() == b.len()) by {
                assert(a.skip(1).len() == b.skip(1).len());
            }
            assert(a =~= b);
        }
    }
}

proof fn lemma_transitive(a: Seq<u8>, b: Seq<u8>, c: Seq<u8>)
    requires
        comes_before(a, b),
        comes_before(b, c),
    ensures
        comes_before(a, c),
    decreases a.len(),
{
    if a.len() > 0 && a[0] == b[0] && b[0] == c[0] {
        lemma_transitive(a.skip(1), b.skip(1), c.skip(1));
    }
}

/// How two byte strings stand to each other.
#[derive(Clone, Copy, Debug, PartialEq, Eq, Structural)]
enum Rank {
    Before,
    Same,
    After,
}

fn rank(a: &[u8], b: &[u8]) -> (rank: Rank)
    ensures
        rank == Rank::Before <==> comes_before(a@, b@),
        rank == Rank::Same <==> a@ == b@,
        rank == Rank::After <==> comes_before(b@, a@),
{
    let mut i: usize = 0;
    assert(a@.skip(0) =~= a@);
    assert(b@.skip(0) =~= b@);
    proof {
        lemma_total(a@, b@);
    }
    while i < a.len() && i < b.len()
        invariant
            i <= a@.len(),
            i <= b@.len(),
            forall|j: int| 0 <= j < i ==> a@[j] == b@[j],
            comes_before(a@, b@) == comes_before(a@.skip(i as int), b@.skip(i as int)),
            comes_before(b@, a@) == comes_before(b@.skip(i as int), a@.skip(i as int)),
            a@ != b@ ==> comes_before(a@, b@) || comes_before(b@, a@),
            comes_before(a@, b@) ==> a@ != b@ && !comes_before(b@, a@),
            comes_before(b@, a@) ==> a@ != b@,
        decreases a@.len() - i,
    {
        assert(a@.skip(i as int)[0] == a@[i as int]);
        assert(b@.skip(i as int)[0] == b@[i as int]);
        if a[i] < b[i] {
            return Rank::Before;
        }
        if b[i] < a[i] {
            return Rank::After;
        }
        assert(a@.skip(i as int).skip(1) =~= a@.skip(i + 1));
        assert(b@.skip(i as int).skip(1) =~= b@.skip(i + 1));
        i = i + 1;
    }
    if i < b.len() {
        Rank::Before
    } else if i < a.len() {
        Rank::After
    } else {
        assert(a@ =~= b@);
        Rank::Same
    }
}

/// One header field: its name, and its value if it has one.
pub type FieldModel = (Seq<char>, Option<Seq<char>>);

/// The text of an optional string.
pub open spec fn text_of(value: Option<String>) -> Option<Seq<char>> {
    match value {
        Some(text) => Some(text@),
        None => None,
    }
}

/// Whether fields are sorted by name, each name once. Names are ordered by
/// their UTF-8 bytes.
pub open spec fn sorted(fields: Seq<FieldModel>) -> bool {
    forall|i: int, j: int|
        0 <= i < j < fields.len() ==> comes_before(
            encode_utf8((#[trigger] fields[i]).0),
            encode_utf8((#[trigger] fields[j]).0),
        )
}

/// Whether some field has this name.
pub open spec fn has_name(fields: Seq<FieldModel>, name: Seq<char>) -> bool {
    exists|i: int| 0 <= i < fields.len() && (#[trigger] fields[i]).0 == name
}

/// One line of a header: name, colon, space, value, line end.
pub open spec fn field_line(field: FieldModel) -> Seq<char> {
    field.0 + ": "@ + (match field.1 {
        Some(value) => value,
        None => Seq::empty(),
    }) + "\r\n"@
}

/// The lines of all fields, in order.
pub open spec fn header_text(fields: Seq<FieldModel>) -> Seq<char>
    decreases fields.len(),
{
    if fields.len() == 0 {
        Seq::empty()
    } else {
        header_text(fields.drop_last()) + field_line(fields.last())
    }
}

/// Header fields in the order of their names, each name once.
pub struct HttpHeaders {
    entries: Vec<(String, Option<String>)>,
}

impl HttpHeaders {
    /// The fields, in order.
    pub closed spec fn fields(&self) -> Seq<FieldModel> {
        self.entries@.map_values(|e: (String, Option<String>)| (e.0@, text_of(e.1)))
    }

    /// The fields as a map from names to values.
    pub open spec fn map(&self) -> Map<Seq<char>, Option<Seq<char>>> {
        fields_map(self.fields())
    }

    /// No fields.
    pub fn new() -> (headers: HttpHeaders)
        ensures
            headers.fields() == Seq::<FieldModel>::empty(),
            sorted(headers.fields()),
            headers.map() == Map::<Seq<char>, Option<Seq<char>>>::empty(),
    {
        let headers = HttpHeaders { entries: Vec::new() };
        assert(headers.fields() =~= Seq::<FieldModel>::empty());
        assert(headers.map() =~= Map::<Seq<char>, Option<Seq<char>>>::empty());
        headers
    }

    /// Sets the value of a field, replacing the value that it had.
    pub fn insert(&mut self, name: String, value: Option<String>)
        requires
            sorted(old(self).fields()),
        ensures
            sorted(final(self).fields()),
            final(self).map() == old(self).map().insert(name@, text_of(value)),
    {
        let ghost before = self.fields();
        let ghost field: FieldModel = (name@, text_of(value));
        let mut i: usize = 0;
        while i < self.entries.len()
            invariant
                i <= self.entries@.len(),
                self.fields() == before,
                before == old(self).fields(),
                sorted(before),
                field == (name@, text_of(value)),
                forall|j: int|
                    0 <= j < i ==> comes_before(
                        encode_utf8((#[trigger] before[j]).0),
                        encode_utf8(name@),
                    ),
            decreases self.entries@.len() - i,
        {
            assert(before[i as int].0 == self.entries@[i as int].0@);
            match rank(self.entries[i].0.as_str().as_bytes(), name.as_str().as_bytes()) {
                Rank::Before => {
                    i = i + 1;
                },
                Rank::Same => {
                    self.entries[i] = (name, value);
                    proof {
                        lemma_same_bytes_same_text(before[i as int].0, field.0);
                        assert(self.fields() =~= before.update(i as int, field));
                        lemma_replace(before, i as int, field);
                    }
                    return;
                },
                Rank::After => {
                    self.entries.insert(i, (name, value));
                    proof {
                        assert(self.fields() =~= before.insert(i as int, field));
                        lemma_insert(before, i as int, field);
                    }
                    return;
                },
            }
        }
        self.entries.push((name, value));
        proof {
            assert(self.fields() =~= before.insert(i as int, field));
            lemma_insert(before, i as int, field);
        }
    }

    /// The text of all fields.
    pub fn render(&self) -> (text: String)
        ensures
            text@ == header_text(self.fields()),
    {
        let mut text: String = String::new();
        let ghost fields = self.fields();
        let mut i: usize = 0;
        assert(fields.take(0) =~= Seq::<FieldModel>::empty());
        while i < self.entries.len()
            invariant
                i <= self.entries@.len(),
                fields == self.fields(),
                text@ == header_text(fields.take(i as int)),
            decreases self.entries@.len() - i,
        {
            let ghost start = text@;
            text.append(self.entries[i].0.as_str());
            text.append(": ");
            match &self.entries[i].1 {
                Some(value) => {
                    text.append(value.as_str());
                },
                None => {},
            }
            text.append("\r\n");
            proof {
                assert(fields[i as int] == (
                    self.entries@[i as int].0@,
                    text_of(self.entries@[i as int].1),
                ));
                assert(text@ =~= start + field_line(fields[i as int]));
                assert(fields.take(i + 1).drop_last() =~= fields.take(i as int));
            }
            i = i + 1;
        }
        assert(fields.take(i as int) =~= fields);
        text
    }
}

/// The map that a sequence of fields stands for. Of two fields with one name
/// the later one counts.
pub open spec fn fields_map(fields: Seq<FieldModel>) -> Map<Seq<char>, Option<Seq<char>>>
    decreases fields.len(),
{
    if fields.len() == 0 {
        Map::empty()
    } else {
        fields_map(fields.drop_last()).insert(fields.last().0, fields.last().1)
    }
}

proof fn lemma_same_bytes_same_text(a: Seq<char>, b: Seq<char>)
    requires
        encode_utf8(a) == encode_utf8(b),
    ensures
        a == b,
{
    vstd::utf8::encode_utf8_decode_utf8(a);
    vstd::utf8::encode_utf8_decode_utf8(b);
}

/// The map of sorted fields holds exactly the fields.
proof fn lemma_sorted_map(fields: Seq<FieldModel>)
    requires
        sorted(fields),
    ensures
        forall|name: Seq<char>| #[trigger]
            fields_map(fields).dom().contains(name) <==> has_name(fields, name),
        forall|i: int|
            0 <= i < fields.len() ==> fields_map(fields)[(#[trigger] fields[i]).0] == fields[i].1,
    decreases fields.len(),
{
    if fields.len() > 0 {
        let front = fields.drop_last();
        let last = fields.last();
        assert(sorted(front)) by {
            assert forall|i: int, j: int| 0 <= i < j < front.len() implies comes_before(
                encode_utf8((#[trigger] front[i]).0),
                encode_utf8((#[trigger] front[j]).0),
            ) by {
                assert(front[i] == fields[i] && front[j] == fields[j]);
            }
        }
        lemma_sorted_map(front);
        assert forall|name: Seq<char>| #[trigger]
            fields_map(fields).dom().contains(name) <==> has_name(fields, name) by {
            assert(fields_map(front).dom().contains(name) <==> has_name(front, name));
            if has_name(front, name) {
                let i = choose|i: int| 0 <= i < front.len() && (#[trigger] front[i]).0 == name;
                assert(fields[i].0 == name);
            }
            if name == last.0 {
                assert(fields[fields.len() - 1].0 == name);
            }
            if has_name(fields, name) && name != last.0 {
                let i = choose|i: int| 0 <= i < fields.len() && (#[trigger] fields[i]).0 == name;
                assert(front[i].0 == name);
            }
        }
        assert forall|i: int| 0 <= i < fields.len() implies fields_map(
            fields,
        )[(#[trigger] fields[i]).0] == fields[i].1 by {
            if i < front.len() {
                assert(front[i] == fields[i]);
                assert(comes_before(encode_utf8(fields[i].0), encode_utf8(last.0))) by {
                    assert(fields[fields.len() - 1] == last);
                }
                lemma_total(encode_utf8(fields[i].0), encode_utf8(last.0));
                assert(fields[i].0 != last.0);
            }
        }
    }
}

proof fn lemma_replace(before: Seq<FieldModel>, at: int, field: FieldModel)
    requires
        sorted(before),
        0 <= at < before.len(),
        before[at].0 == field.0,
    ensures
        sorted(before.update(at, field)),
        fields_map(before.update(at, field)) == fields_map(before).insert(field.0, field.1),
{
    let after = before.update(at, field);
    assert(forall|i: int| 0 <= i < before.len() ==> (#[trigger] after[i]).0 == before[i].0);
    lemma_sorted_map(before);
    lemma_sorted_map(after);
    let goal = fields_map(before).insert(field.0, field.1);
    assert forall|name: Seq<char>| fields_map(after).dom().contains(name)
        == goal.dom().contains(name) by {
        if has_name(after, name) {
            let i = choose|i: int| 0 <= i < after.len() && (#[trigger] after[i]).0 == name;
            assert(before[i].0 == name);
        }
        if has_name(before, name) {
            let i = choose|i: int| 0 <= i < before.len() && (#[trigger] before[i]).0 == name;
            assert(after[i].0 == name);
        }
        assert(after[at].0 == field.0);
    }
    assert forall|name: Seq<char>| fields_map(after).dom().contains(name) implies fields_map(
        after,
    )[name] == goal[name] by {
        let i = choose|i: int| 0 <= i < after.len() && (#[trigger] after[i]).0 == name;
        assert(after[i].0 == name);
        if name == field.0 {
            assert(fields_map(after)[after[at].0] == after[at].1);
        } else {
            assert(i != at);
            assert(after[i] == before[i]);
        }
    }
    assert(fields_map(after) =~= goal);
}

proof fn lemma_insert(before: Seq<FieldModel>, at: int, field: FieldModel)
    requires
        sorted(before),
        0 <= at <= before.len(),
        forall|j: int|
            0 <= j < at ==> comes_before(
                encode_utf8((#[trigger] before[j]).0),
                encode_utf8(field.0),
            ),
        at < before.len() ==> comes_before(encode_utf8(field.0), encode_utf8(before[at].0)),
    ensures
        sorted(before.insert(at, field)),
        fields_map(before.insert(at, field)) == fields_map(before).insert(field.0, field.1),
{
    let after = before.insert(at, field);
    assert forall|i: int, j: int| 0 <= i < j < after.len() implies comes_before(
        encode_utf8((#[trigger] after[i]).0),
        encode_utf8((#[trigger] after[j]).0),
    ) by {
        let before_i = if i < at {
            before[i]
        } else {
            before[i - 1]
        };
        let before_j = if j < at {
            before[j]
        } else {
            before[j - 1]
        };
        if i == at {
            assert(after[j] == before[j - 1]);
            if j - 1 > at {
                assert(comes_before(encode_utf8(before[at].0), encode_utf8(before[j - 1].0)));
                lemma_transitive(
                    encode_utf8(field.0),
                    encode_utf8(before[at].0),
                    encode_utf8(before[j - 1].0),
                );
            }
        } else if j == at {
            assert(after[i] == before[i]);
        } else {
            assert(after[i] == before_i && after[j] == before_j);
        }
    }
    lemma_sorted_map(before);
    lemma_sorted_map(after);
    let goal = fields_map(before).insert(field.0, field.1);
    assert forall|name: Seq<char>| fields_map(after).dom().contains(name)
        == goal.dom().contains(name) by {
        if has_name(after, name) {
            let i = choose|i: int| 0 <= i < after.len() && (#[trigger] after[i]).0 == name;
            if i < at {
                assert(before[i].0 == name);
            } else if i > at {
                assert(before[i - 1].0 == name);
            }
        }
        if has_name(before, name) {
            let i = choose|i: int| 0 <= i < before.len() && (#[trigger] before[i]).0 == name;
            if i < at {
                assert(after[i].0 == name);
            } else {
                assert(after[i + 1].0 == name);
            }
        }
        assert(after[at].0 == field.0);
    }
    assert forall|name: Seq<char>| fields_map(after).dom().contains(name) implies fields_map(
        after,
    )[name] == goal[name] by {
        let i = choose|i: int| 0 <= i < after.len() && (#[trigger] after[i]).0 == name;
        assert(after[i].0 == name);
        if name == field.0 {
            assert(fields_map(after)[after[at].0] == after[at].1);
        } else {
            assert(i != at);
            let k = if i < at {
                i
            } else {
                i - 1
            };
            assert(after[i] == before[k]);
            assert(fields_map(before)[before[k].0] == before[k].1);
        }
    }
    assert(fields_map(after) =~= goal);
}

/// Fields that stand for the same map are the same, so neither their order nor
/// their text depends on the order in which they were set.
pub proof fn law_map_decides_text(a: Seq<FieldModel>, b: Seq<FieldModel>)
    requires
        sorted(a),
        sorted(b),
        fields_map(a) == fields_map(b),
    ensures
        a == b,
        header_text(a) == header_text(b),
    decreases a.len(),
{
    lemma_sorted_map(a);
    lemma_sorted_map(b);
    if a.len() == 0 {
        if b.len() > 0 {
            assert(has_name(b, b[0].0));
            assert(fields_map(a).dom().contains(b[0].0));
        }
        assert(a =~= b);
    } else {
        assert(a[a.len() - 1].0 == a.last().0);
        assert(has_name(a, a.last().0));
        assert(fields_map(b).dom().contains(a.last().0));
        let i = choose|i: int| 0 <= i < b.len() && (#[trigger] b[i]).0 == a.last().0;
        assert(has_name(b, b.last().0)) by {
            assert(b[b.len() - 1].0 == b.last().0);
        }
        assert(fields_map(a).dom().contains(b.last().0));
        let j = choose|j: int| 0 <= j < a.len() && (#[trigger] a[j]).0 == b.last().0;
        lemma_total(encode_utf8(a.last().0), encode_utf8(b.last().0));
        if i < b.len() - 1 {
            assert(comes_before(encode_utf8(b[i].0), encode_utf8(b[b.len() - 1].0)));
            if j < a.len() - 1 {
                assert(comes_before(encode_utf8(a[j].0), encode_utf8(a[a.len() - 1].0)));
            }
        }
        assert(a.last().0 == b.last().0);
        assert(fields_map(a)[a[a.len() - 1].0] == a[a.len() - 1].1);
        assert(fields_map(b)[b[b.len() - 1].0] == b[b.len() - 1].1);
        assert(a.last() == b.last());
        let a0 = a.drop_last();
        let b0 = b.drop_last();
        assert forall|i: int, j: int| 0 <= i < j < a0.len() implies comes_before(
            encode_utf8((#[trigger] a0[i]).0),
            encode_utf8((#[trigger] a0[j]).0),
        ) by {
            assert(a0[i] == a[i] && a0[j] == a[j]);
        }
        assert forall|i: int, j: int| 0 <= i < j < b0.len() implies comes_before(
            encode_utf8((#[trigger] b0[i]).0),
            encode_utf8((#[trigger] b0[j]).0),
        ) by {
            assert(b0[i] == b[i] && b0[j] == b[j]);
        }
        lemma_last_is_new(a);
        lemma_last_is_new(b);
        assert(fields_map(a0) =~= fields_map(a).remove(a.last().0));
        assert(fields_map(b0) =~= fields_map(b).remove(b.last().0));
        law_map_decides_text(a0, b0);
        assert(a =~= a0.push(a.last()));
        assert(b =~= b0.push(b.last()));
    }
}

/// The fields of a map in the order of their names.
pub open spec fn in_order(map: Map<Seq<char>, Option<Seq<char>>>) -> Seq<FieldModel> {
    choose|fields: Seq<FieldModel>| sorted(fields) && #[trigger] fields_map(fields) == map
}

/// Whether the fields of a map can be listed in order, and are: the list is
/// sorted and holds what the map holds.
pub open spec fn lists_in_order(map: Map<Seq<char>, Option<Seq<char>>>) -> bool {
    &&& sorted(in_order(map))
    &&& fields_map(in_order(map)) == map
}

/// Sorted fields are the fields of their map in order.
pub proof fn law_sorted_is_in_order(fields: Seq<FieldModel>)
    requires
        sorted(fields),
    ensures
        in_order(fields_map(fields)) == fields,
{
    law_map_decides_text(in_order(fields_map(fields)), fields);
}

proof fn lemma_last_is_new(fields: Seq<FieldModel>)
    requires
        sorted(fields),
        fields.len() > 0,
    ensures
        !fields_map(fields.drop_last()).dom().contains(fields.last().0),
{
    let front = fields.drop_last();
    assert forall|i: int, j: int| 0 <= i < j < front.len() implies comes_before(
        encode_utf8((#[trigger] front[i]).0),
        encode_utf8((#[trigger] front[j]).0),
    ) by {
        assert(front[i] == fields[i] && front[j] == fields[j]);
    }
    lemma_sorted_map(front);
    if has_name(front, fields.last().0) {
        let i = choose|i: int| 0 <= i < front.len() && (#[trigger] front[i]).0 == fields.last().0;
        assert(front[i] == fields[i]);
        assert(comes_before(encode_utf8(fields[i].0), encode_utf8(fields[fields.len() - 1].0)));
        lemma_total(encode_utf8(fields[i].0), encode_utf8(fields[i].0));
    }
}

/// One byte string comes before another when it is a proper beginning of it,
/// or has the smaller byte where the two first differ.
pub proof fn law_order_is_by_the_first_difference(a: Seq<u8>, b: Seq<u8>, at: int)
    requires
        0 <= at <= a.len(),
        at <= b.len(),
        forall|i: int| 0 <= i < at ==> a[i] == b[i],
    ensures
        at < a.len() && at < b.len() && a[at] < b[at] ==> comes_before(a, b) && !comes_before(b, a),
        at == a.len() && at < b.len() ==> comes_before(a, b) && !comes_before(b, a),
        at == a.len() && at == b.len() ==> !comes_before(a, b),
    decreases at,
{
    if at > 0 {
        assert forall|i: int| 0 <= i < at - 1 implies a.skip(1)[i] == b.skip(1)[i] by {
            assert(a[i + 1] == b[i + 1]);
        }
        law_order_is_by_the_first_difference(a.skip(1), b.skip(1), at - 1);
    }
}

/// Fields are sorted when of any two the one in front has the name that comes
/// first.
pub proof fn law_sorted_by_name(fields: Seq<FieldModel>, i: int, j: int)
    requires
        sorted(fields),
        0 <= i < j < fields.len(),
    ensures
        comes_before(encode_utf8(fields[i].0), encode_utf8(fields[j].0)),
        fields[i].0 != fields[j].0,
{
    assert(comes_before(encode_utf8(fields[i].0), encode_utf8(fields[j].0)));
    lemma_total(encode_utf8(fields[i].0), encode_utf8(fields[j].0));
}

/// The map of sorted fields has the name of every field, with the value of that
/// field, and no other name.
pub proof fn law_map_holds_the_fields(fields: Seq<FieldModel>, name: Seq<char>)
    requires
        sorted(fields),
    ensures
        fields_map(fields).dom().contains(name) <==> exists|i: int|
            0 <= i < fields.len() && (#[trigger] fields[i]).0 == name,
        forall|i: int|
            0 <= i < fields.len() ==> fields_map(fields)[(#[trigger] fields[i]).0] == fields[i].1,
{
    lemma_sorted_map(fields);
    assert(fields_map(fields).dom().contains(name) <==> has_name(fields, name));
}

/// One more field behind the others is one more line: its name, a colon and a
/// space, its value if it has one, and a line end. No fields are no text.
pub proof fn law_each_field_is_a_line(fields: Seq<FieldModel>, name: Seq<char>, value: Seq<char>)
    ensures
        header_text(Seq::empty()).len() == 0,
        header_text(fields.push((name, Some(value)))) == header_text(fields) + name + ": "@
            + value + "\r\n"@,
        header_text(fields.push((name, None))) == header_text(fields) + name + ": "@ + "\r\n"@,
{
    let some: FieldModel = (name, Some(value));
    let none: FieldModel = (name, None);
    assert(fields.push(some).drop_last() =~= fields);
    assert(fields.push(none).drop_last() =~= fields);
    assert(header_text(fields.push(some)) =~= header_text(fields) + name + ": "@ + value
        + "\r\n"@);
    assert(header_text(fields.push(none)) =~= header_text(fields) + name + ": "@ + "\r\n"@);
}

/// Fields that are listed in order are sorted and are those of the map. The map
/// of headers is that of their fields. An optional string has its text.
pub proof fn law_headers_stand_for_their_map(
    headers: HttpHeaders,
    map: Map<Seq<char>, Option<Seq<char>>>,
    text: String,
)
    ensures
        lists_in_order(map) <==> sorted(in_order(map)) && fields_map(in_order(map)) == map,
        headers.map() == fields_map(headers.fields()),
        text_of(Some(text)) == Some(text@),
        text_of(None) is None,
{
}

} // verus!
