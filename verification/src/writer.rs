//! Compact JSON text written piece by piece, as `serde_json` writes a value
//! that it serialises field by field: strings quoted and escaped, members
//! separated by commas, no spaces.
use vstd::prelude::*;

use crate::json::{json_quote, json_text, json_to_string, pairs_view, quote, strings_view, values_view, Json, JsonValue};
use crate::text::{owned, push_str};

verus! {

/// The texts, separated by commas.
pub open spec fn joined(items: Seq<Seq<char>>) -> Seq<char>
    decreases items.len(),
{
    if items.len() == 0 {
        seq![]
    } else if items.len() == 1 {
        items[0]
    } else {
        joined(items.drop_last()) + ","@ + items.last()
    }
}

/// A JSON array whose items have the given texts.
pub open spec fn array_text(items: Seq<Seq<char>>) -> Seq<char> {
    "["@ + joined(items) + "]"@
}

/// A member `"key":value`, given the value's text.
pub open spec fn entry_text(key: Seq<char>, value: Seq<char>) -> Seq<char> {
    json_quote(key) + ":"@ + value
}

/// A member after a comma, given the value's text.
pub open spec fn member_text(key: Seq<char>, value: Seq<char>) -> Seq<char> {
    ","@ + entry_text(key, value)
}

/// A member that is written only when present (`skip_serializing_if`).
pub open spec fn opt_member_text(key: Seq<char>, value: Option<Seq<char>>) -> Seq<char> {
    match value {
        Some(v) => member_text(key, v),
        None => seq![],
    }
}

/// The JSON text of a boolean.
pub open spec fn bool_text(b: bool) -> Seq<char> {
    if b {
        "true"@
    } else {
        "false"@
    }
}

/// An optional string's JSON text, where present.
pub open spec fn opt_quoted(s: Option<Seq<char>>) -> Option<Seq<char>> {
    match s {
        Some(t) => Some(json_quote(t)),
        None => None,
    }
}

/// An optional string as a JSON string or `null`.
pub open spec fn quoted_or_null(s: Option<Seq<char>>) -> Seq<char> {
    match s {
        Some(t) => json_quote(t),
        None => "null"@,
    }
}

/// The JSON string literals of the texts.
pub open spec fn quoted_all(ss: Seq<Seq<char>>) -> Seq<Seq<char>> {
    ss.map_values(|s: Seq<char>| json_quote(s))
}

/// A JSON array of strings.
pub open spec fn strings_text(ss: Seq<Seq<char>>) -> Seq<char> {
    array_text(quoted_all(ss))
}

/// A JSON array of documents, each printed as `serde_json` prints it.
pub open spec fn values_text(vs: Seq<Json>) -> Seq<char> {
    array_text(vs.map_values(|v: Json| json_text(v)))
}

/// The members `"key":"value"` of string pairs.
pub open spec fn pair_entries(ps: Seq<(Seq<char>, Seq<char>)>) -> Seq<Seq<char>> {
    ps.map_values(|p: (Seq<char>, Seq<char>)| entry_text(p.0, json_quote(p.1)))
}

/// A JSON object of strings, members in the order given.
pub open spec fn pairs_text(ps: Seq<(Seq<char>, Seq<char>)>) -> Seq<char> {
    "{"@ + joined(pair_entries(ps)) + "}"@
}

/// Appends the texts, separated by commas.
pub fn push_joined(out: &mut String, items: &Vec<String>)
    ensures
        final(out)@ == old(out)@ + joined(strings_view(items@)),
{
    let ghost start = out@;
    let mut i: usize = 0;
    while i < items.len()
        invariant
            i <= items.len(),
            out@ == start + joined(strings_view(items@).take(i as int)),
        decreases items.len() - i,
    {
        if i > 0 {
            push_str(out, ",");
        }
        push_str(out, items[i].as_str());
        proof {
            let t = strings_view(items@).take(i + 1);
            assert(t.drop_last() =~= strings_view(items@).take(i as int));
            assert(t.last() == items@[i as int]@);
            if i == 0 {
                assert(strings_view(items@).take(0) =~= Seq::<Seq<char>>::empty());
            }
            assert(out@ =~= start + joined(t));
        }
        i = i + 1;
    }
    assert(strings_view(items@).take(items.len() as int) =~= strings_view(items@));
}

/// The JSON string literals of the strings.
fn quote_all(ss: &Vec<String>) -> (r: Vec<String>)
    ensures
        strings_view(r@) == quoted_all(strings_view(ss@)),
{
    let mut r: Vec<String> = Vec::new();
    let mut i: usize = 0;
    while i < ss.len()
        invariant
            i <= ss.len(),
            r@.len() == i,
            strings_view(r@) == quoted_all(strings_view(ss@)).take(i as int),
        decreases ss.len() - i,
    {
        let ghost prev = r@;
        r.push(quote(ss[i].as_str()));
        proof {
            let want = quoted_all(strings_view(ss@));
            assert forall|j: int| 0 <= j < i + 1 implies #[trigger] strings_view(r@)[j] == want[j] by {
                if j < i {
                    assert(strings_view(prev)[j] == want.take(i as int)[j]);
                    assert(r@[j] == prev[j]);
                }
            }
            assert(strings_view(r@) =~= want.take(i + 1));
        }
        i = i + 1;
    }
    assert(quoted_all(strings_view(ss@)).take(ss.len() as int) =~= quoted_all(strings_view(ss@)));
    r
}

/// Prints strings as a JSON array.
pub fn strings_array(ss: &Vec<String>) -> (out: String)
    ensures
        out@ == strings_text(strings_view(ss@)),
{
    let quoted = quote_all(ss);
    let mut out = owned("[");
    push_joined(&mut out, &quoted);
    push_str(&mut out, "]");
    assert(out@ =~= strings_text(strings_view(ss@)));
    out
}

/// Prints documents as a JSON array.
pub fn values_array(vs: &Vec<JsonValue>) -> (out: String)
    ensures
        out@ == values_text(values_view(vs@)),
{
    let mut texts: Vec<String> = Vec::new();
    let mut i: usize = 0;
    while i < vs.len()
        invariant
            i <= vs.len(),
            texts@.len() == i,
            strings_view(texts@) == values_view(vs@).map_values(|v: Json| json_text(v)).take(
                i as int,
            ),
        decreases vs.len() - i,
    {
        let ghost prev = texts@;
        texts.push(json_to_string(&vs[i]));
        proof {
            let want = values_view(vs@).map_values(|v: Json| json_text(v));
            assert forall|j: int| 0 <= j < i + 1 implies #[trigger] strings_view(texts@)[j] == want[j] by {
                if j < i {
                    assert(strings_view(prev)[j] == want.take(i as int)[j]);
                    assert(texts@[j] == prev[j]);
                }
            }
            assert(strings_view(texts@) =~= want.take(i + 1));
        }
        i = i + 1;
    }
    assert(values_view(vs@).map_values(|v: Json| json_text(v)).take(vs.len() as int)
        =~= values_view(vs@).map_values(|v: Json| json_text(v)));
    let mut out = owned("[");
    push_joined(&mut out, &texts);
    push_str(&mut out, "]");
    assert(out@ =~= values_text(values_view(vs@)));
    out
}

/// Prints string pairs as a JSON object.
pub fn pairs_object(ps: &Vec<(String, String)>) -> (out: String)
    ensures
        out@ == pairs_text(pairs_view(ps@)),
{
    let mut texts: Vec<String> = Vec::new();
    let mut i: usize = 0;
    while i < ps.len()
        invariant
            i <= ps.len(),
            texts@.len() == i,
            strings_view(texts@) == pair_entries(pairs_view(ps@)).take(i as int),
        decreases ps.len() - i,
    {
        let mut entry = quote(ps[i].0.as_str());
        push_str(&mut entry, ":");
        let v = quote(ps[i].1.as_str());
        push_str(&mut entry, v.as_str());
        assert(entry@ =~= entry_text(ps@[i as int].0@, json_quote(ps@[i as int].1@)));
        let ghost prev = texts@;
        texts.push(entry);
        proof {
            let want = pair_entries(pairs_view(ps@));
            assert forall|j: int| 0 <= j < i + 1 implies #[trigger] strings_view(texts@)[j] == want[j] by {
                if j < i {
                    assert(strings_view(prev)[j] == want.take(i as int)[j]);
                    assert(texts@[j] == prev[j]);
                }
            }
            assert(strings_view(texts@) =~= want.take(i + 1));
        }
        i = i + 1;
    }
    assert(pair_entries(pairs_view(ps@)).take(ps.len() as int) =~= pair_entries(pairs_view(ps@)));
    let mut out = owned("{");
    push_joined(&mut out, &texts);
    push_str(&mut out, "}");
    assert(out@ =~= pairs_text(pairs_view(ps@)));
    out
}

/// Appends `"key":` and a value's text.
pub fn push_entry(out: &mut String, key: &str, value: &str)
    ensures
        final(out)@ == old(out)@ + entry_text(key@, value@),
{
    let k = quote(key);
    push_str(out, k.as_str());
    push_str(out, ":");
    push_str(out, value);
    assert(final(out)@ =~= old(out)@ + entry_text(key@, value@));
}

/// Appends `,"key":` and a value's text.
pub fn push_member(out: &mut String, key: &str, value: &str)
    ensures
        final(out)@ == old(out)@ + member_text(key@, value@),
{
    push_str(out, ",");
    push_entry(out, key, value);
    assert(final(out)@ =~= old(out)@ + member_text(key@, value@));
}

} // verus!

verus! {

/// An object's text from the names and value texts of its members, in
/// order.
pub open spec fn object_text(members: Seq<(Seq<char>, Seq<char>)>) -> Seq<char> {
    seq!['{'] + joined(members.map_values(|m: (Seq<char>, Seq<char>)| entry_text(m.0, m.1)))
        + seq!['}']
}

/// Whether the member `"key":value` stands in `text` at position `i`,
/// after a `{` or `,` and before a `,` or `}`.
pub open spec fn member_at(text: Seq<char>, key: Seq<char>, value: Seq<char>, i: int) -> bool {
    let e = entry_text(key, value);
    &&& 1 <= i
    &&& i + e.len() < text.len()
    &&& text.subrange(i, i + e.len()) == e
    &&& (text[i - 1] == '{' || text[i - 1] == ',')
    &&& (text[i + e.len()] == ',' || text[i + e.len()] == '}')
}

/// Whether `text` holds the member `"key":value` at some position.
pub open spec fn has_member(text: Seq<char>, key: Seq<char>, value: Seq<char>) -> bool {
    exists|i: int| #[trigger] member_at(text, key, value, i)
}

/// The `k`-th of comma-separated texts stands between what comes before
/// it, nothing or ending in a comma, and what comes after it, nothing or
/// starting with a comma.
pub proof fn lemma_joined_split(items: Seq<Seq<char>>, k: int) -> (r: (Seq<char>, Seq<char>))
    requires
        0 <= k < items.len(),
    ensures
        joined(items) == r.0 + items[k] + r.1,
        r.0.len() == 0 || r.0.last() == ',',
        r.1.len() == 0 || r.1[0] == ',',
    decreases items.len(),
{
    reveal_strlit(",");
    if items.len() == 1 {
        assert(joined(items) =~= seq![] + items[k] + seq![]);
        (seq![], seq![])
    } else {
        let rest = items.drop_last();
        if k == items.len() - 1 {
            let pre = joined(rest) + ","@;
            assert(joined(items) =~= pre + items[k] + seq![]);
            (pre, seq![])
        } else {
            let (p, q) = lemma_joined_split(rest, k);
            assert(rest[k] == items[k]);
            let post = q + ","@ + items.last();
            assert(joined(items) =~= p + items[k] + post);
            if q.len() > 0 {
                assert(post[0] == q[0]);
            }
            (p, post)
        }
    }
}

/// Every member of an object's text stands in it.
pub proof fn lemma_object_text_member(members: Seq<(Seq<char>, Seq<char>)>, k: int)
    requires
        0 <= k < members.len(),
    ensures
        has_member(object_text(members), members[k].0, members[k].1),
{
    let items = members.map_values(|m: (Seq<char>, Seq<char>)| entry_text(m.0, m.1));
    let e = entry_text(members[k].0, members[k].1);
    let (pre, post) = lemma_joined_split(items, k);
    assert(items[k] == e);
    let a = seq!['{'] + pre;
    let b = post + seq!['}'];
    let text = object_text(members);
    assert(text =~= a + e + b);
    let i = a.len() as int;
    assert(text.subrange(i, i + e.len()) =~= e);
    assert(text[i - 1] == a.last());
    assert(text[i + e.len()] == b[0]);
    assert(member_at(text, members[k].0, members[k].1, i));
}

/// An object of one member.
pub proof fn lemma_object_text_one(key: Seq<char>, value: Seq<char>)
    ensures
        object_text(seq![(key, value)]) == seq!['{'] + entry_text(key, value) + seq!['}'],
{
    let items = seq![(key, value)].map_values(|m: (Seq<char>, Seq<char>)| entry_text(m.0, m.1));
    assert(items =~= seq![entry_text(key, value)]);
}

/// One more member is written after a comma, before the closing brace.
pub proof fn lemma_object_text_extend(
    members: Seq<(Seq<char>, Seq<char>)>,
    body: Seq<char>,
    key: Seq<char>,
    value: Seq<char>,
)
    requires
        members.len() > 0,
        object_text(members) == seq!['{'] + body + seq!['}'],
    ensures
        object_text(members.push((key, value))) == seq!['{'] + body + member_text(key, value)
            + seq!['}'],
{
    reveal_strlit(",");
    let f = |m: (Seq<char>, Seq<char>)| entry_text(m.0, m.1);
    let items = members.map_values(f);
    let more = members.push((key, value)).map_values(f);
    assert(more.drop_last() =~= items);
    assert(more.last() == entry_text(key, value));
    assert(joined(items) =~= (seq!['{'] + body + seq!['}']).subrange(1, body.len() + 1 as int));
    assert(joined(items) =~= body);
    assert(object_text(members.push((key, value))) =~= seq!['{'] + body + member_text(key, value)
        + seq!['}']);
}

/// Adding one more text to comma-separated texts adds a comma and it.
proof fn lemma_joined_push(items: Seq<Seq<char>>, x: Seq<char>)
    ensures
        joined(items.push(x)) == if items.len() == 0 {
            x
        } else {
            joined(items) + ","@ + x
        },
{
    assert(items.push(x).drop_last() =~= items);
}

/// An empty array is `[]`, and one more string is added at the end, after
/// a comma when there were strings before.
pub proof fn lemma_strings_text_push(ss: Seq<Seq<char>>, x: Seq<char>)
    ensures
        strings_text(Seq::<Seq<char>>::empty()) == "["@ + "]"@,
        strings_text(ss.push(x)) == strings_text(ss).drop_last() + (if ss.len() == 0 {
            seq![]
        } else {
            ","@
        }) + json_quote(x) + "]"@,
{
    reveal_strlit("]");
    assert(quoted_all(Seq::<Seq<char>>::empty()) =~= Seq::<Seq<char>>::empty());
    assert(strings_text(ss).drop_last() =~= "["@ + joined(quoted_all(ss)));
    assert(quoted_all(ss.push(x)) =~= quoted_all(ss).push(json_quote(x)));
    lemma_joined_push(quoted_all(ss), json_quote(x));
    if ss.len() == 0 {
        assert(joined(quoted_all(ss)) =~= seq![]);
        assert(strings_text(ss.push(x)) =~= "["@ + joined(quoted_all(ss)) + seq![] + json_quote(x)
            + "]"@);
    } else {
        assert(strings_text(ss.push(x)) =~= "["@ + joined(quoted_all(ss)) + ","@ + json_quote(x)
            + "]"@);
    }
}

/// An empty array of documents is `[]`, and one more document is added at
/// the end as `serde_json` prints it, after a comma when there were
/// documents before.
pub proof fn lemma_values_text_push(vs: Seq<Json>, x: Json)
    ensures
        values_text(Seq::<Json>::empty()) == "["@ + "]"@,
        values_text(vs.push(x)) == values_text(vs).drop_last() + (if vs.len() == 0 {
            seq![]
        } else {
            ","@
        }) + json_text(x) + "]"@,
{
    reveal_strlit("]");
    let f = |v: Json| json_text(v);
    assert(Seq::<Json>::empty().map_values(f) =~= Seq::<Seq<char>>::empty());
    assert(values_text(vs).drop_last() =~= "["@ + joined(vs.map_values(f)));
    assert(vs.push(x).map_values(f) =~= vs.map_values(f).push(json_text(x)));
    lemma_joined_push(vs.map_values(f), json_text(x));
    if vs.len() == 0 {
        assert(joined(vs.map_values(f)) =~= seq![]);
        assert(values_text(vs.push(x)) =~= "["@ + joined(vs.map_values(f)) + seq![] + json_text(x)
            + "]"@);
    } else {
        assert(values_text(vs.push(x)) =~= "["@ + joined(vs.map_values(f)) + ","@ + json_text(x)
            + "]"@);
    }
}

/// An empty object of strings is `{}`, and one more pair is added at the
/// end as the member `"key":"value"`, after a comma when there were pairs
/// before.
pub proof fn lemma_pairs_text_push(ps: Seq<(Seq<char>, Seq<char>)>, k: Seq<char>, v: Seq<char>)
    ensures
        pairs_text(Seq::<(Seq<char>, Seq<char>)>::empty()) == "{"@ + "}"@,
        pairs_text(ps.push((k, v))) == pairs_text(ps).drop_last() + (if ps.len() == 0 {
            seq![]
        } else {
            ","@
        }) + json_quote(k) + ":"@ + json_quote(v) + "}"@,
{
    reveal_strlit("}");
    assert(pair_entries(Seq::<(Seq<char>, Seq<char>)>::empty()) =~= Seq::<Seq<char>>::empty());
    assert(pairs_text(ps).drop_last() =~= "{"@ + joined(pair_entries(ps)));
    assert(pair_entries(ps.push((k, v))) =~= pair_entries(ps).push(entry_text(k, json_quote(v))));
    lemma_joined_push(pair_entries(ps), entry_text(k, json_quote(v)));
    if ps.len() == 0 {
        assert(joined(pair_entries(ps)) =~= seq![]);
        assert(pairs_text(ps.push((k, v))) =~= "{"@ + joined(pair_entries(ps)) + seq![] + json_quote(k)
            + ":"@ + json_quote(v) + "}"@);
    } else {
        assert(pairs_text(ps.push((k, v))) =~= "{"@ + joined(pair_entries(ps)) + ","@ + json_quote(k)
            + ":"@ + json_quote(v) + "}"@);
    }
}

/// An object's text up to its closing brace: the opening brace, the first
/// member, and the others after commas.
pub open spec fn object_prefix(ms: Seq<(Seq<char>, Seq<char>)>) -> Seq<char>
    decreases ms.len(),
{
    if ms.len() <= 1 {
        seq!['{'] + entry_text(ms[0].0, ms[0].1)
    } else {
        object_prefix(ms.drop_last()) + member_text(ms.last().0, ms.last().1)
    }
}

/// An object's text is its prefix and the closing brace.
pub proof fn lemma_object_text_prefix(ms: Seq<(Seq<char>, Seq<char>)>)
    requires
        ms.len() > 0,
    ensures
        object_text(ms) == object_prefix(ms) + seq!['}'],
    decreases ms.len(),
{
    if ms.len() == 1 {
        lemma_object_text_one(ms[0].0, ms[0].1);
        assert(ms =~= seq![(ms[0].0, ms[0].1)]);
    } else {
        let rest = ms.drop_last();
        lemma_object_text_prefix(rest);
        let body = object_prefix(rest).subrange(1, object_prefix(rest).len() as int);
        lemma_object_prefix_opens(rest);
        assert(object_prefix(rest) =~= seq!['{'] + body);
        assert(object_text(rest) =~= seq!['{'] + body + seq!['}']);
        lemma_object_text_extend(rest, body, ms.last().0, ms.last().1);
        assert(rest.push((ms.last().0, ms.last().1)) =~= ms);
        assert(object_text(ms) =~= object_prefix(ms) + seq!['}']);
    }
}

/// An object's prefix starts with the opening brace.
pub proof fn lemma_object_prefix_opens(ms: Seq<(Seq<char>, Seq<char>)>)
    requires
        ms.len() > 0,
    ensures
        object_prefix(ms).len() > 0,
        object_prefix(ms)[0] == '{',
    decreases ms.len(),
{
    if ms.len() > 1 {
        lemma_object_prefix_opens(ms.drop_last());
    }
}

/// One more member extends an object's prefix by that member after a
/// comma.
pub proof fn lemma_object_prefix_push(ms: Seq<(Seq<char>, Seq<char>)>, x: (Seq<char>, Seq<char>))
    requires
        ms.len() > 0,
    ensures
        object_prefix(ms.push(x)) == object_prefix(ms) + member_text(x.0, x.1),
{
    assert(ms.push(x).drop_last() =~= ms);
}

} // verus!
