use crate::config::constructs::{
    body_tag, header_tag, query_tag, selector_view, separator, texts, RuleFields, RuleFieldsView,
};
use vstd::prelude::*;
use vstd::string::*;

verus! {

/// The named values of one request, by the part of the request that holds
/// them. Within a part, the first pair that bears a name gives its value.
/// Names are compared as they are, letter for letter.
#[derive(Debug, Clone, PartialEq, Eq)]
pub struct RequestFields {
    pub body: Vec<(String, String)>,
    pub query: Vec<(String, String)>,
    pub header: Vec<(String, String)>,
}

/// The pairs of one part of a request as plain texts.
pub open spec fn pairs_view(pairs: Seq<(String, String)>) -> Seq<(Seq<char>, Seq<char>)> {
    Seq::new(pairs.len(), |i: int| (pairs[i].0@, pairs[i].1@))
}

/// A request's named values as plain texts.
pub ghost struct RequestFieldsView {
    pub body: Seq<(Seq<char>, Seq<char>)>,
    pub query: Seq<(Seq<char>, Seq<char>)>,
    pub header: Seq<(Seq<char>, Seq<char>)>,
}

impl View for RequestFields {
    type V = RequestFieldsView;

    open spec fn view(&self) -> RequestFieldsView {
        RequestFieldsView {
            body: pairs_view(self.body@),
            query: pairs_view(self.query@),
            header: pairs_view(self.header@),
        }
    }
}

/// The value that `pairs` gives to `name`: that of the first pair that bears
/// the name, and the empty text where none does.
pub open spec fn lookup(pairs: Seq<(Seq<char>, Seq<char>)>, name: Seq<char>) -> Seq<char>
    decreases pairs.len(),
{
    if pairs.len() == 0 {
        Seq::empty()
    } else if pairs.first().0 == name {
        pairs.first().1
    } else {
        lookup(pairs.drop_first(), name)
    }
}

/// The values that `pairs` gives to each of `names`, in the order of `names`.
pub open spec fn selected(pairs: Seq<(Seq<char>, Seq<char>)>, names: Seq<Seq<char>>) -> Seq<
    Seq<char>,
> {
    Seq::new(names.len(), |i: int| lookup(pairs, names[i]))
}

/// The values in order, each closed by the separator.
pub open spec fn joined(values: Seq<Seq<char>>) -> Seq<char>
    decreases values.len(),
{
    if values.len() == 0 {
        Seq::empty()
    } else {
        joined(values.drop_last()) + values.last() + separator()
    }
}

/// One section of a fingerprint: nothing where the selector list is missing,
/// else the tag and the selected values, each closed by the separator.
pub open spec fn section(
    tag: Seq<char>,
    list: Option<Seq<Seq<char>>>,
    pairs: Seq<(Seq<char>, Seq<char>)>,
) -> Seq<char> {
    match list {
        Some(names) => tag + joined(selected(pairs, names)),
        None => Seq::empty(),
    }
}

/// The fingerprint of a request under a selector set: the sections for body,
/// query and header, in this order.
pub open spec fn fingerprint(fields: RuleFieldsView, request: RequestFieldsView) -> Seq<char> {
    section(body_tag(), fields.body, request.body) + section(
        query_tag(),
        fields.query,
        request.query,
    ) + section(header_tag(), fields.header, request.header)
}

/// Looks `name` up in one part of a request.
pub fn lookup_value<'a>(pairs: &'a Vec<(String, String)>, name: &String) -> (value: &'a str)
    ensures
        value@ == lookup(pairs_view(pairs@), name@),
{
    let mut i: usize = 0;
    proof {
        assert(pairs_view(pairs@).skip(0) =~= pairs_view(pairs@));
    }
    while i < pairs.len()
        invariant
            i <= pairs.len(),
            lookup(pairs_view(pairs@), name@) == lookup(pairs_view(pairs@).skip(i as int), name@),
        decreases pairs.len() - i,
    {
        proof {
            let rest = pairs_view(pairs@).skip(i as int);
            assert(rest.first() == (pairs@[i as int].0@, pairs@[i as int].1@));
            assert(rest.drop_first() =~= pairs_view(pairs@).skip(i + 1));
        }
        if pairs[i].0 == *name {
            return pairs[i].1.as_str();
        }
        i = i + 1;
    }
    proof {
        reveal_strlit("");
        assert(pairs_view(pairs@).skip(i as int).len() == 0);
        assert(""@ =~= Seq::<char>::empty());
    }
    ""
}

/// Appends one section of a fingerprint to `key`.
fn push_section(
    key: &mut String,
    tag: &str,
    list: &Option<Vec<String>>,
    pairs: &Vec<(String, String)>,
)
    ensures
        final(key)@ == old(key)@ + section(tag@, selector_view(*list), pairs_view(pairs@)),
{
    match list {
        Some(names) => {
            let ghost start = key@;
            let ghost values = selected(pairs_view(pairs@), texts(names@));
            key.append(tag);
            let mut i: usize = 0;
            while i < names.len()
                invariant
                    i <= names.len(),
                    values == selected(pairs_view(pairs@), texts(names@)),
                    key@ == start + tag@ + joined(values.take(i as int)),
                decreases names.len() - i,
            {
                proof {
                    assert(values.take(i + 1).drop_last() =~= values.take(i as int));
                    assert(values.take(i + 1).last() == lookup(
                        pairs_view(pairs@),
                        names@[i as int]@,
                    ));
                }
                let value = lookup_value(pairs, &names[i]);
                key.append(value);
                key.append(",");
                assert(key@ =~= start + tag@ + joined(values.take(i + 1)));
                i = i + 1;
            }
            proof {
                assert(values.take(i as int) =~= values);
                assert(key@ =~= start + (tag@ + joined(values)));
            }
        },
        None => {
            assert(key@ =~= old(key)@ + Seq::<char>::empty());
        },
    }
}

/// Derives the fingerprint of a request under a selector set.
///
/// Only the values of the selected fields enter the key, in the configured
/// order; a selected field that the request lacks counts as the empty text.
pub fn derive(fields: &RuleFields, request: &RequestFields) -> (key: String)
    ensures
        key@ == fingerprint(fields@, request@),
{
    let mut key = String::new();
    push_section(&mut key, "body::", &fields.body, &request.body);
    push_section(&mut key, "query::", &fields.query, &request.query);
    push_section(&mut key, "header::", &fields.header, &request.header);
    assert(key@ =~= fingerprint(fields@, request@));
    key
}

/// A part of a request in which fields are looked up.
pub ghost enum Part {
    Body,
    Query,
    Header,
}

/// The selector list that `fields` has for `part`.
pub open spec fn list_of(fields: RuleFieldsView, part: Part) -> Option<Seq<Seq<char>>> {
    match part {
        Part::Body => fields.body,
        Part::Query => fields.query,
        Part::Header => fields.header,
    }
}

/// The pairs that `request` holds in `part`.
pub open spec fn pairs_of(request: RequestFieldsView, part: Part) -> Seq<(Seq<char>, Seq<char>)> {
    match part {
        Part::Body => request.body,
        Part::Query => request.query,
        Part::Header => request.header,
    }
}

/// The name that is left out of the comparison in the part `here`, where the
/// change is in `part`: `name` in that part, none in the other parts.
pub open spec fn left_out(part: Part, here: Part, name: Seq<char>) -> Option<Seq<char>> {
    if part == here {
        Some(name)
    } else {
        None
    }
}

/// Two parts give the same value to every name of the list, but perhaps to
/// `except`. A missing list selects nothing, so any two parts agree on it.
pub open spec fn agree_but_on(
    list: Option<Seq<Seq<char>>>,
    first: Seq<(Seq<char>, Seq<char>)>,
    second: Seq<(Seq<char>, Seq<char>)>,
    except: Option<Seq<char>>,
) -> bool {
    forall|i: int|
        list is Some && 0 <= i < list->Some_0.len() && except != Some(list->Some_0[i])
            ==> #[trigger] lookup(first, list->Some_0[i]) == lookup(second, list->Some_0[i])
}

/// Two requests give the same value to every field that `fields` selects.
pub open spec fn agree_on_selected(
    fields: RuleFieldsView,
    first: RequestFieldsView,
    second: RequestFieldsView,
) -> bool {
    &&& agree_but_on(fields.body, first.body, second.body, None)
    &&& agree_but_on(fields.query, first.query, second.query, None)
    &&& agree_but_on(fields.header, first.header, second.header, None)
}

proof fn lemma_joined_len(shorter: Seq<Seq<char>>, longer: Seq<Seq<char>>)
    requires
        shorter.len() == longer.len(),
        forall|i: int| 0 <= i < shorter.len() ==> shorter[i].len() <= longer[i].len(),
    ensures
        joined(shorter).len() <= joined(longer).len(),
        (exists|k: int| 0 <= k < shorter.len() && shorter[k].len() < longer[k].len()) ==> joined(
            shorter,
        ).len() < joined(longer).len(),
    decreases shorter.len(),
{
    if shorter.len() > 0 {
        lemma_joined_len(shorter.drop_last(), longer.drop_last());
        if exists|k: int| 0 <= k < shorter.len() && shorter[k].len() < longer[k].len() {
            let k = choose|k: int| 0 <= k < shorter.len() && shorter[k].len() < longer[k].len();
            if k < shorter.len() - 1 {
                assert(shorter.drop_last()[k].len() < longer.drop_last()[k].len());
            }
        }
    }
}

proof fn lemma_joined_same_lengths(first: Seq<Seq<char>>, second: Seq<Seq<char>>)
    requires
        first.len() == second.len(),
        forall|i: int| 0 <= i < first.len() ==> first[i].len() == second[i].len(),
        joined(first) == joined(second),
    ensures
        first == second,
    decreases first.len(),
{
    if first.len() > 0 {
        let head = joined(first.drop_last());
        let other = joined(second.drop_last());
        lemma_joined_len(first.drop_last(), second.drop_last());
        lemma_joined_len(second.drop_last(), first.drop_last());
        let n = first.last().len() as int;
        assert(head =~= joined(first).subrange(0, head.len() as int));
        assert(other =~= joined(second).subrange(0, head.len() as int));
        assert(first.last() =~= joined(first).subrange(head.len() as int, head.len() + n));
        assert(second.last() =~= joined(second).subrange(head.len() as int, head.len() + n));
        lemma_joined_same_lengths(first.drop_last(), second.drop_last());
        assert(first =~= first.drop_last().push(first.last()));
        assert(second =~= second.drop_last().push(second.last()));
    } else {
        assert(first =~= second);
    }
}

proof fn lemma_cancel(before: Seq<char>, x: Seq<char>, y: Seq<char>, after: Seq<char>)
    requires
        before + x + after == before + y + after,
    ensures
        x == y,
{
    let whole = before + x + after;
    let other = before + y + after;
    assert(whole.len() == other.len());
    assert(x =~= whole.subrange(before.len() as int, (before.len() + x.len()) as int));
    assert(y =~= other.subrange(before.len() as int, (before.len() + y.len()) as int));
}

proof fn lemma_section_differs(
    tag: Seq<char>,
    names: Seq<Seq<char>>,
    first: Seq<(Seq<char>, Seq<char>)>,
    second: Seq<(Seq<char>, Seq<char>)>,
    name: Seq<char>,
)
    requires
        names.contains(name),
        lookup(first, name) != lookup(second, name),
        agree_but_on(Some(names), first, second, Some(name)),
    ensures
        section(tag, Some(names), first) != section(tag, Some(names), second),
{
    let a = selected(first, names);
    let b = selected(second, names);
    let k = choose|k: int| 0 <= k < names.len() && names[k] == name;
    assert forall|i: int| 0 <= i < names.len() implies a[i] == b[i] || (a[i] == lookup(
        first,
        name,
    ) && b[i] == lookup(second, name)) by {
        if names[i] != name {
            let list = Some(names);
            assert(lookup(first, list->Some_0[i]) == lookup(second, list->Some_0[i]));
        }
    }
    assert(a[k] == lookup(first, name) && b[k] == lookup(second, name));
    if joined(a) == joined(b) {
        if lookup(first, name).len() < lookup(second, name).len() {
            assert(a[k].len() < b[k].len());
            lemma_joined_len(a, b);
        } else if lookup(second, name).len() < lookup(first, name).len() {
            assert(b[k].len() < a[k].len());
            lemma_joined_len(b, a);
        } else {
            lemma_joined_same_lengths(a, b);
        }
        assert(false);
    }
    if tag + joined(a) == tag + joined(b) {
        assert(tag + joined(a) + Seq::<char>::empty() =~= tag + joined(a));
        assert(tag + joined(b) + Seq::<char>::empty() =~= tag + joined(b));
        lemma_cancel(tag, joined(a), joined(b), Seq::empty());
    }
}

proof fn lemma_section_agrees(
    tag: Seq<char>,
    list: Option<Seq<Seq<char>>>,
    first: Seq<(Seq<char>, Seq<char>)>,
    second: Seq<(Seq<char>, Seq<char>)>,
)
    requires
        agree_but_on(list, first, second, None),
    ensures
        section(tag, list, first) == section(tag, list, second),
{
    if let Some(names) = list {
        assert forall|i: int| 0 <= i < names.len() implies lookup(first, names[i]) == lookup(
            second,
            names[i],
        ) by {
            assert(lookup(first, list->Some_0[i]) == lookup(second, list->Some_0[i]));
        }
        assert(selected(first, names) =~= selected(second, names));
    }
}

/// A selector set without any list gives every request the same fingerprint,
/// the empty one.
pub proof fn lemma_empty_selector_one_fingerprint(fields: RuleFieldsView, request: RequestFieldsView)
    requires
        fields.body is None,
        fields.query is None,
        fields.header is None,
    ensures
        fingerprint(fields, request) == Seq::<char>::empty(),
{
    assert(fingerprint(fields, request) =~= Seq::<char>::empty());
}

/// A fingerprint depends on nothing but the values of the selected fields:
/// two requests that give each of them the same value have the same
/// fingerprint, however else they differ.
pub proof fn lemma_fingerprint_ignores_unselected(
    fields: RuleFieldsView,
    first: RequestFieldsView,
    second: RequestFieldsView,
)
    requires
        agree_on_selected(fields, first, second),
    ensures
        fingerprint(fields, first) == fingerprint(fields, second),
{
    lemma_section_agrees(body_tag(), fields.body, first.body, second.body);
    lemma_section_agrees(query_tag(), fields.query, first.query, second.query);
    lemma_section_agrees(header_tag(), fields.header, first.header, second.header);
}

/// A change in the value of one selected field changes the fingerprint: two
/// requests that give `name`, selected in `part`, different values there, and
/// every other selected field the same value, have different fingerprints.
pub proof fn lemma_fingerprint_tells_selected_apart(
    fields: RuleFieldsView,
    first: RequestFieldsView,
    second: RequestFieldsView,
    part: Part,
    name: Seq<char>,
)
    requires
        list_of(fields, part) is Some,
        list_of(fields, part)->Some_0.contains(name),
        lookup(pairs_of(first, part), name) != lookup(pairs_of(second, part), name),
        agree_but_on(fields.body, first.body, second.body, left_out(part, Part::Body, name)),
        agree_but_on(fields.query, first.query, second.query, left_out(part, Part::Query, name)),
        agree_but_on(
            fields.header,
            first.header,
            second.header,
            left_out(part, Part::Header, name),
        ),
    ensures
        fingerprint(fields, first) != fingerprint(fields, second),
{
    let b1 = section(body_tag(), fields.body, first.body);
    let b2 = section(body_tag(), fields.body, second.body);
    let q1 = section(query_tag(), fields.query, first.query);
    let q2 = section(query_tag(), fields.query, second.query);
    let h1 = section(header_tag(), fields.header, first.header);
    let h2 = section(header_tag(), fields.header, second.header);
    let names = list_of(fields, part)->Some_0;
    let none = Seq::<char>::empty();
    match part {
        Part::Body => {
            lemma_section_differs(body_tag(), names, first.body, second.body, name);
            lemma_section_agrees(query_tag(), fields.query, first.query, second.query);
            lemma_section_agrees(header_tag(), fields.header, first.header, second.header);
            if b1 + q1 + h1 == b2 + q2 + h2 {
                assert(none + b1 + (q1 + h1) =~= b1 + q1 + h1);
                assert(none + b2 + (q1 + h1) =~= b2 + q2 + h2);
                lemma_cancel(none, b1, b2, q1 + h1);
            }
        },
        Part::Query => {
            lemma_section_agrees(body_tag(), fields.body, first.body, second.body);
            lemma_section_differs(query_tag(), names, first.query, second.query, name);
            lemma_section_agrees(header_tag(), fields.header, first.header, second.header);
            if b1 + q1 + h1 == b2 + q2 + h2 {
                lemma_cancel(b1, q1, q2, h1);
            }
        },
        Part::Header => {
            lemma_section_agrees(body_tag(), fields.body, first.body, second.body);
            lemma_section_agrees(query_tag(), fields.query, first.query, second.query);
            lemma_section_differs(header_tag(), names, first.header, second.header, name);
            if b1 + q1 + h1 == b2 + q2 + h2 {
                assert((b1 + q1) + h1 + none =~= b1 + q1 + h1);
                assert((b1 + q1) + h2 + none =~= b2 + q2 + h2);
                lemma_cancel(b1 + q1, h1, h2, none);
            }
        },
    }
}

/// The text holds no separator.
pub open spec fn free_of_separator(text: Seq<char>) -> bool {
    forall|j: int| 0 <= j < text.len() ==> text[j] != ','
}

/// None of the values that a part gives to the names of the list holds a
/// separator.
pub open spec fn selects_plain_values(
    list: Option<Seq<Seq<char>>>,
    pairs: Seq<(Seq<char>, Seq<char>)>,
) -> bool {
    forall|i: int|
        list is Some && 0 <= i < list->Some_0.len() ==> free_of_separator(
            #[trigger] lookup(pairs, list->Some_0[i]),
        )
}

/// None of the values that the request gives to the selected fields holds a
/// separator.
pub open spec fn plain_on_selected(fields: RuleFieldsView, request: RequestFieldsView) -> bool {
    &&& selects_plain_values(fields.body, request.body)
    &&& selects_plain_values(fields.query, request.query)
    &&& selects_plain_values(fields.header, request.header)
}

proof fn lemma_value_read_back(a: Seq<char>, x: Seq<char>, b: Seq<char>, y: Seq<char>)
    requires
        free_of_separator(a),
        free_of_separator(b),
        a + separator() + x == b + separator() + y,
    ensures
        a == b,
        x == y,
{
    reveal_strlit(",");
    assert(separator() =~= seq![',']);
    let left = a + separator() + x;
    let right = b + separator() + y;
    if a.len() < b.len() {
        assert(left[a.len() as int] == ',');
        assert(right[a.len() as int] == b[a.len() as int]);
        assert(false);
    }
    if b.len() < a.len() {
        assert(right[b.len() as int] == ',');
        assert(left[b.len() as int] == a[b.len() as int]);
        assert(false);
    }
    assert(a =~= left.subrange(0, a.len() as int));
    assert(b =~= right.subrange(0, a.len() as int));
    assert(x =~= left.subrange(a.len() as int + 1, left.len() as int));
    assert(y =~= right.subrange(a.len() as int + 1, right.len() as int));
}

proof fn lemma_values_read_back(
    first: Seq<Seq<char>>,
    x: Seq<char>,
    second: Seq<Seq<char>>,
    y: Seq<char>,
)
    requires
        first.len() == second.len(),
        forall|i: int| 0 <= i < first.len() ==> free_of_separator(#[trigger] first[i]),
        forall|i: int| 0 <= i < second.len() ==> free_of_separator(#[trigger] second[i]),
        joined(first) + x == joined(second) + y,
    ensures
        first == second,
        x == y,
    decreases first.len(),
{
    if first.len() > 0 {
        let a = first.last();
        let b = second.last();
        let head = joined(first.drop_last());
        let other = joined(second.drop_last());
        assert(head + (a + separator() + x) =~= joined(first) + x);
        assert(other + (b + separator() + y) =~= joined(second) + y);
        assert forall|i: int| 0 <= i < first.drop_last().len() implies free_of_separator(
            #[trigger] first.drop_last()[i],
        ) by {
            assert(first.drop_last()[i] == first[i]);
        }
        assert forall|i: int| 0 <= i < second.drop_last().len() implies free_of_separator(
            #[trigger] second.drop_last()[i],
        ) by {
            assert(second.drop_last()[i] == second[i]);
        }
        lemma_values_read_back(
            first.drop_last(),
            a + separator() + x,
            second.drop_last(),
            b + separator() + y,
        );
        lemma_value_read_back(a, x, b, y);
        assert(first =~= first.drop_last().push(a));
        assert(second =~= second.drop_last().push(b));
    } else {
        assert(first =~= second);
        assert(joined(first) + x =~= x);
        assert(joined(second) + y =~= y);
    }
}

proof fn lemma_section_read_back(
    tag: Seq<char>,
    list: Option<Seq<Seq<char>>>,
    first: Seq<(Seq<char>, Seq<char>)>,
    x: Seq<char>,
    second: Seq<(Seq<char>, Seq<char>)>,
    y: Seq<char>,
)
    requires
        selects_plain_values(list, first),
        selects_plain_values(list, second),
        section(tag, list, first) + x == section(tag, list, second) + y,
    ensures
        agree_but_on(list, first, second, None),
        x == y,
{
    match list {
        Some(names) => {
            let a = selected(first, names);
            let b = selected(second, names);
            assert(tag + (joined(a) + x) + Seq::<char>::empty() =~= tag + joined(a) + x);
            assert(tag + (joined(b) + y) + Seq::<char>::empty() =~= tag + joined(b) + y);
            lemma_cancel(tag, joined(a) + x, joined(b) + y, Seq::empty());
            assert forall|i: int| 0 <= i < a.len() implies free_of_separator(#[trigger] a[i]) by {
                assert(free_of_separator(lookup(first, list->Some_0[i])));
            }
            assert forall|i: int| 0 <= i < b.len() implies free_of_separator(#[trigger] b[i]) by {
                assert(free_of_separator(lookup(second, list->Some_0[i])));
            }
            lemma_values_read_back(a, x, b, y);
            assert forall|i: int| 0 <= i < names.len() implies lookup(first, names[i]) == lookup(
                second,
                names[i],
            ) by {
                assert(a[i] == b[i]);
            }
        },
        None => {
            assert(section(tag, list, first) + x =~= x);
            assert(section(tag, list, second) + y =~= y);
        },
    }
}

/// Where no selected value holds a separator, the fingerprint tells any two
/// requests apart that differ in a selected value: two such requests with
/// the same fingerprint give every selected field the same value.
pub proof fn lemma_fingerprint_reads_back(
    fields: RuleFieldsView,
    first: RequestFieldsView,
    second: RequestFieldsView,
)
    requires
        plain_on_selected(fields, first),
        plain_on_selected(fields, second),
        fingerprint(fields, first) == fingerprint(fields, second),
    ensures
        agree_on_selected(fields, first, second),
{
    let b1 = section(body_tag(), fields.body, first.body);
    let b2 = section(body_tag(), fields.body, second.body);
    let q1 = section(query_tag(), fields.query, first.query);
    let q2 = section(query_tag(), fields.query, second.query);
    let h1 = section(header_tag(), fields.header, first.header);
    let h2 = section(header_tag(), fields.header, second.header);
    let none = Seq::<char>::empty();
    assert(b1 + (q1 + h1) =~= b1 + q1 + h1);
    assert(b2 + (q2 + h2) =~= b2 + q2 + h2);
    lemma_section_read_back(body_tag(), fields.body, first.body, q1 + h1, second.body, q2 + h2);
    lemma_section_read_back(query_tag(), fields.query, first.query, h1, second.query, h2);
    assert(h1 + none =~= h1);
    assert(h2 + none =~= h2);
    lemma_section_read_back(header_tag(), fields.header, first.header, none, second.header, none);
}

} // verus!
