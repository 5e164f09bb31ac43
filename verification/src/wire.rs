//! The text form of a message, field by field, and what reading that text
//! gives back.
use vstd::prelude::*;

use crate::field_map::{
    counter_tags, counters_string, field_chars, field_text, fields_chars, groups_string, has_tag,
    law_set_field_read_back, lemma_lookup_at, lookup, map_string, plain_fields, pre_string,
    sorted_tags, MapModel,
};
use crate::data_dictionary::{find_group, find_message, DDMapModel, DataDictionaryModel};
use crate::message::{
    cleared, extract, find_char_from, header_field_order, header_tag, lemma_finish_read_ok,
    message_text, read_fields, read_message, trailer_field_order, trailer_tag, MessageModel,
    ParseErrorModel, ReadState,
};
use crate::tags;
use crate::text::{decimal, is_digit, law_decimal_parses_back, lemma_decimal_digits};

verus! {

/// The fields that `pre` names and that are set in `fs`, in the order of `pre`.
pub open spec fn pre_list(fs: Seq<(u32, Seq<char>)>, pre: Seq<u32>) -> Seq<(u32, Seq<char>)>
    decreases pre.len(),
{
    if pre.len() == 0 {
        Seq::empty()
    } else {
        match lookup(fs, pre.last()) {
            Some(v) => pre_list(fs, pre.drop_last()).push((pre.last(), v)),
            None => pre_list(fs, pre.drop_last()),
        }
    }
}

/// The fields of `fs` that `pre` does not name, in order.
pub open spec fn rest_list(fs: Seq<(u32, Seq<char>)>, pre: Seq<u32>) -> Seq<(u32, Seq<char>)>
    decreases fs.len(),
{
    if fs.len() == 0 {
        Seq::empty()
    } else if pre.contains(fs.last().0) {
        rest_list(fs.drop_last(), pre)
    } else {
        rest_list(fs.drop_last(), pre).push(fs.last())
    }
}

/// The fields that a map without groups writes, in the order it writes
/// them: those of `pre` first, then the others in ascending order.
pub open spec fn written_fields(m: MapModel, pre: Seq<u32>) -> Seq<(u32, Seq<char>)> {
    pre_list(m.fields, pre) + rest_list(m.fields, pre)
}

/// The text of fields with one more field ends with that field's text.
pub proof fn lemma_fields_chars_push(a: Seq<(u32, Seq<char>)>, x: (u32, Seq<char>))
    ensures
        fields_chars(a.push(x)) == fields_chars(a) + field_chars(x.0, x.1),
{
    assert(a.push(x).drop_last() =~= a);
}

/// The text of two runs of fields is the text of the first followed by that of the second.
pub proof fn lemma_fields_chars_concat(a: Seq<(u32, Seq<char>)>, b: Seq<(u32, Seq<char>)>)
    ensures
        fields_chars(a + b) == fields_chars(a) + fields_chars(b),
    decreases b.len(),
{
    if b.len() == 0 {
        assert(a + b =~= a);
        assert(fields_chars(a) + fields_chars(b) =~= fields_chars(a));
    } else {
        lemma_fields_chars_concat(a, b.drop_last());
        assert((a + b).drop_last() =~= a + b.drop_last());
        assert((a + b).last() == b.last());
        assert(fields_chars(a) + fields_chars(b.drop_last()) + field_chars(b.last().0, b.last().1)
            =~= fields_chars(a) + (fields_chars(b.drop_last()) + field_chars(b.last().0, b.last().1)));
    }
}

proof fn lemma_no_groups_text(gs: Seq<crate::field_map::GroupModel>, tag: u32)
    requires
        gs.len() == 0,
    ensures
        groups_string(gs, tag) == Seq::<char>::empty(),
{
}

proof fn lemma_pre_string_flat(m: MapModel, pre: Seq<u32>)
    requires
        m.groups.len() == 0,
    ensures
        pre_string(m, pre) == fields_chars(pre_list(m.fields, pre)),
    decreases pre.len(),
{
    if pre.len() > 0 {
        lemma_pre_string_flat(m, pre.drop_last());
        lemma_no_groups_text(m.groups, pre.last());
        match lookup(m.fields, pre.last()) {
            Some(v) => {
                lemma_fields_chars_push(pre_list(m.fields, pre.drop_last()), (pre.last(), v));
                assert(field_text(m.fields, pre.last()) == field_chars(pre.last(), v));
                assert(pre_string(m, pre) =~= pre_string(m, pre.drop_last()) + field_chars(
                    pre.last(),
                    v,
                ));
            },
            None => {},
        }
    }
}

proof fn lemma_plain_fields_flat(fs: Seq<(u32, Seq<char>)>, pre: Seq<u32>)
    ensures
        plain_fields(fs, Seq::empty(), pre) == fields_chars(rest_list(fs, pre)),
    decreases fs.len(),
{
    if fs.len() > 0 {
        lemma_plain_fields_flat(fs.drop_last(), pre);
        assert(!Seq::<u32>::empty().contains(fs.last().0));
        if pre.contains(fs.last().0) {
            assert(plain_fields(fs, Seq::empty(), pre) =~= plain_fields(fs.drop_last(), Seq::empty(), pre));
        } else {
            lemma_fields_chars_push(rest_list(fs.drop_last(), pre), fs.last());
        }
    }
}

/// A map without groups is written as its fields, one after the other, in
/// the order `written_fields` gives.
pub proof fn lemma_map_string_flat(m: MapModel, pre: Seq<u32>)
    requires
        m.groups.len() == 0,
    ensures
        map_string(m, pre) == fields_chars(written_fields(m, pre)),
{
    assert(counter_tags(m.groups) =~= Seq::<u32>::empty());
    lemma_pre_string_flat(m, pre);
    lemma_plain_fields_flat(m.fields, pre);
    assert(counters_string(m, counter_tags(m.groups), pre) =~= Seq::<char>::empty());
    lemma_fields_chars_concat(pre_list(m.fields, pre), rest_list(m.fields, pre));
    assert(map_string(m, pre) =~= fields_chars(pre_list(m.fields, pre)) + fields_chars(
        rest_list(m.fields, pre),
    ));
}

proof fn lemma_pre_list_entries(fs: Seq<(u32, Seq<char>)>, pre: Seq<u32>)
    ensures
        forall|i: int|
            0 <= i < pre_list(fs, pre).len() ==> lookup(fs, #[trigger] pre_list(fs, pre)[i].0) == Some(
                pre_list(fs, pre)[i].1,
            ),
        forall|k: int|
            0 <= k < pre.len() && lookup(fs, pre[k]) is Some ==> exists|i: int|
                0 <= i < pre_list(fs, pre).len() && #[trigger] pre_list(fs, pre)[i].0 == pre[k],
    decreases pre.len(),
{
    if pre.len() > 0 {
        let p = pre.drop_last();
        lemma_pre_list_entries(fs, p);
        let q = pre_list(fs, p);
        assert forall|k: int| 0 <= k < pre.len() && lookup(fs, pre[k]) is Some implies exists|i: int|
            0 <= i < pre_list(fs, pre).len() && #[trigger] pre_list(fs, pre)[i].0 == pre[k] by {
            if k < p.len() {
                assert(pre[k] == p[k]);
                let i = choose|i: int| 0 <= i < q.len() && #[trigger] q[i].0 == p[k];
                assert(pre_list(fs, pre)[i] == q[i]);
            } else {
                assert(pre_list(fs, pre)[q.len() as int].0 == pre[k]);
            }
        }
    }
}

proof fn lemma_rest_list_entries(fs: Seq<(u32, Seq<char>)>, pre: Seq<u32>)
    ensures
        forall|i: int|
            0 <= i < rest_list(fs, pre).len() ==> exists|j: int|
                0 <= j < fs.len() && fs[j] == #[trigger] rest_list(fs, pre)[i],
        forall|j: int|
            0 <= j < fs.len() && !pre.contains(fs[j].0) ==> exists|i: int|
                0 <= i < rest_list(fs, pre).len() && #[trigger] rest_list(fs, pre)[i] == fs[j],
    decreases fs.len(),
{
    if fs.len() > 0 {
        let p = fs.drop_last();
        lemma_rest_list_entries(p, pre);
        let q = rest_list(p, pre);
        let r = rest_list(fs, pre);
        assert forall|i: int| 0 <= i < r.len() implies exists|j: int|
            0 <= j < fs.len() && fs[j] == #[trigger] r[i] by {
            if i < q.len() {
                assert(r[i] == q[i]);
                let j = choose|j: int| 0 <= j < p.len() && p[j] == q[i];
                assert(fs[j] == p[j]);
            } else {
                assert(r[i] == fs[fs.len() - 1]);
            }
        }
        assert forall|j: int| 0 <= j < fs.len() && !pre.contains(fs[j].0) implies exists|i: int|
            0 <= i < r.len() && #[trigger] r[i] == fs[j] by {
            if j < p.len() {
                assert(fs[j] == p[j]);
                let i = choose|i: int| 0 <= i < q.len() && #[trigger] q[i] == p[j];
                assert(r[i] == q[i]);
            } else {
                assert(r[q.len() as int] == fs[j]);
            }
        }
    }
}

#[verifier::spinoff_prover]
proof fn lemma_written_are_fields(m: MapModel, pre: Seq<u32>)
    requires
        sorted_tags(m.fields),
    ensures
        forall|i: int|
            0 <= i < written_fields(m, pre).len() ==> lookup(m.fields, #[trigger] written_fields(m, pre)[i].0)
                == Some(written_fields(m, pre)[i].1),
{
    let fs = m.fields;
    let a = pre_list(fs, pre);
    let b = rest_list(fs, pre);
    let w = written_fields(m, pre);
    lemma_pre_list_entries(fs, pre);
    lemma_rest_list_entries(fs, pre);
    assert forall|i: int| 0 <= i < w.len() implies lookup(fs, #[trigger] w[i].0) == Some(w[i].1) by {
        if i < a.len() {
            assert(w[i] == a[i]);
        } else {
            assert(w[i] == b[i - a.len()]);
            let j = choose|j: int| 0 <= j < fs.len() && fs[j] == #[trigger] b[i - a.len()];
            lemma_lookup_at(fs, j);
        }
    }
}

#[verifier::spinoff_prover]
proof fn lemma_fields_are_written(m: MapModel, pre: Seq<u32>)
    requires
        sorted_tags(m.fields),
    ensures
        forall|t: u32|
            has_tag(m.fields, t) ==> exists|i: int|
                0 <= i < written_fields(m, pre).len() && #[trigger] written_fields(m, pre)[i].0 == t,
{
    let fs = m.fields;
    let a = pre_list(fs, pre);
    let b = rest_list(fs, pre);
    let w = written_fields(m, pre);
    lemma_pre_list_entries(fs, pre);
    lemma_rest_list_entries(fs, pre);
    assert forall|t: u32| has_tag(fs, t) implies exists|i: int| 0 <= i < w.len() && #[trigger] w[i].0 == t by {
        let j = choose|j: int| 0 <= j < fs.len() && fs[j].0 == t;
        if pre.contains(t) {
            let k = choose|k: int| 0 <= k < pre.len() && pre[k] == t;
            lemma_lookup_at(fs, j);
            assert(lookup(fs, pre[k]) is Some);
            let i = choose|i: int| 0 <= i < a.len() && #[trigger] a[i].0 == pre[k];
            assert(w[i] == a[i]);
        } else {
            let i = choose|i: int| 0 <= i < b.len() && #[trigger] b[i] == fs[j];
            assert(w[a.len() + i] == b[i]);
        }
    }
}

/// The value of the last field with tag `t` in `fs`.
pub open spec fn last_value(fs: Seq<(u32, Seq<char>)>, t: u32) -> Option<Seq<char>>
    decreases fs.len(),
{
    if fs.len() == 0 {
        None
    } else if fs.last().0 == t {
        Some(fs.last().1)
    } else {
        last_value(fs.drop_last(), t)
    }
}

/// Where a tag goes as the session dictionary `sdd` says: 0 for the
/// header, 2 for the trailer, 1 for the body.
pub open spec fn part_of(t: u32, sdd: Option<DataDictionaryModel>) -> nat {
    if header_tag(t, sdd) {
        0
    } else if trailer_tag(t, sdd) {
        2
    } else {
        1
    }
}

/// Whether `t` counts no group of the header or trailer of the session
/// dictionary `sdd`.
pub open spec fn ungrouped(t: u32, sdd: Option<DataDictionaryModel>) -> bool {
    match sdd {
        Some(d) => find_group(d.header.groups, t) is None && find_group(d.trailer.groups, t) is None,
        None => true,
    }
}

/// Every field of `fs` belongs to `class` and counts no group of the
/// session dictionary `sdd`, and no value holds SOH.
pub open spec fn fields_of_class(fs: Seq<(u32, Seq<char>)>, class: nat, sdd: Option<DataDictionaryModel>) -> bool {
    forall|i: int|
        0 <= i < fs.len() ==> part_of(#[trigger] fs[i].0, sdd) == class && ungrouped(fs[i].0, sdd)
            && !fs[i].1.contains('\x01')
}

/// Where the text of the first `k` fields of `fs` ends.
pub open spec fn text_pos(fs: Seq<(u32, Seq<char>)>, k: int) -> nat {
    fields_chars(fs.take(k)).len()
}

proof fn lemma_find_char(s: Seq<char>, from: nat, j: nat, c: char)
    requires
        from <= j < s.len(),
        s[j as int] == c,
        forall|i: int| from <= i < j ==> s[i] != c,
    ensures
        find_char_from(s, from, c) == Some(j),
    decreases j - from,
{
    if from < j {
        lemma_find_char(s, from + 1, j, c);
    }
}

/// The text of fields without SOH in their values is cut back into those
/// fields, one after the other.
#[verifier::spinoff_prover]
#[verifier::rlimit(30)]
proof fn lemma_extract_field(fs: Seq<(u32, Seq<char>)>, k: int)
    requires
        0 <= k < fs.len(),
        !fs[k].1.contains('\x01'),
    ensures
        text_pos(fs, k + 1) == text_pos(fs, k) + field_chars(fs[k].0, fs[k].1).len(),
        text_pos(fs, k) < text_pos(fs, k + 1) <= fields_chars(fs).len(),
        extract(fields_chars(fs), text_pos(fs, k)) == Ok::<(u32, Seq<char>, nat), ParseErrorModel>(
            (fs[k].0, fs[k].1, text_pos(fs, k + 1)),
        ),
{
    let s = fields_chars(fs);
    let t = fs[k].0;
    let v = fs[k].1;
    let fc = field_chars(t, v);
    let a = fs.take(k);
    let b = fs.take(k + 1);
    let rest = fs.skip(k + 1);
    lemma_fields_chars_push(a, fs[k]);
    assert(a.push(fs[k]) =~= b);
    assert(b + rest =~= fs);
    lemma_fields_chars_concat(b, rest);
    let p = fields_chars(a).len();
    let d = decimal(t as nat);
    lemma_decimal_digits(t as nat);
    assert(s =~= fields_chars(a) + fc + fields_chars(rest));
    assert forall|i: int| 0 <= i < fc.len() implies s[p + i] == fc[i] by {
        assert((fields_chars(a) + fc)[p + i] == fc[i]);
    }
    let eq = p + d.len();
    assert forall|i: int| p <= i < eq implies s[i] != '=' by {
        assert(s[p + (i - p)] == fc[i - p]);
        assert(fc[i - p] == d[i - p]);
        assert(is_digit(d[i - p]));
    }
    assert(s[eq as int] == '=') by {
        assert(s[(p + d.len()) as int] == fc[d.len() as int]);
    }
    lemma_find_char(s, p, eq, '=');
    assert(s.subrange(p as int, eq as int) =~= d) by {
        assert forall|i: int| 0 <= i < d.len() implies s.subrange(p as int, eq as int)[i] == d[i] by {
            assert(s[p + i] == fc[i]);
        }
    }
    law_decimal_parses_back(t as nat, u32::MAX as nat);
    let soh = eq + 1 + v.len();
    assert forall|i: int| eq + 1 <= i < soh implies s[i] != '\x01' by {
        let j = i - eq - 1;
        assert(s[p + (i - p)] == fc[i - p]);
        assert(fc[i - p] == v[j]);
        if v[j] == '\x01' {
            assert(v.contains('\x01'));
        }
    }
    assert(s[soh as int] == '\x01') by {
        assert(s[p + (soh - p)] == fc[soh - p]);
    }
    lemma_find_char(s, eq + 1, soh, '\x01');
    assert(s.subrange((eq + 1) as int, soh as int) =~= v) by {
        assert forall|i: int| 0 <= i < v.len() implies s.subrange((eq + 1) as int, soh as int)[i] == v[i] by {
            assert(s[p + (d.len() + 1 + i)] == fc[d.len() + 1 + i]);
        }
    }
}

/// The message `base` with the fields `h`, `b` and `t` in its header, body
/// and trailer.
pub open spec fn with_fields(
    base: MessageModel,
    h: Seq<(u32, Seq<char>)>,
    b: Seq<(u32, Seq<char>)>,
    t: Seq<(u32, Seq<char>)>,
) -> MessageModel {
    MessageModel {
        header: MapModel { fields: h, ..base.header },
        body: MapModel { fields: b, ..base.body },
        trailer: MapModel { fields: t, ..base.trailer },
        ..base
    }
}

/// `part` holds, in ascending order, the last value of each tag of `class`
/// among the first `k` fields of `fs`.
pub open spec fn read_so_far(
    part: Seq<(u32, Seq<char>)>,
    fs: Seq<(u32, Seq<char>)>,
    k: int,
    class: nat,
    sdd: Option<DataDictionaryModel>,
) -> bool {
    &&& sorted_tags(part)
    &&& forall|t: u32|
        #[trigger] lookup(part, t) == if part_of(t, sdd) == class {
            last_value(fs.take(k), t)
        } else {
            None
        }
}

/// The fields of `fs` are those of the header, then those of the body,
/// then those of the trailer, none counts a group of the session
/// dictionary, and no value holds SOH.
pub open spec fn classes_in_order(
    fs: Seq<(u32, Seq<char>)>,
    nh: int,
    nb: int,
    sdd: Option<DataDictionaryModel>,
    add: Option<DataDictionaryModel>,
) -> bool {
    &&& 0 <= nh <= nb <= fs.len()
    &&& forall|i: int|
        0 <= i < fs.len() ==> part_of(#[trigger] fs[i].0, sdd) == if i < nh {
            0nat
        } else if i < nb {
            1nat
        } else {
            2nat
        }
    &&& forall|i: int| 0 <= i < fs.len() ==> !(#[trigger] fs[i]).1.contains('\x01') && ungrouped(fs[i].0, sdd)
    &&& forall|i: int|
        nh <= i < nb ==> body_ungrouped(#[trigger] fs[i].0, type_map(add, last_value(fs.take(nh), tags::MsgType)))
}

/// The application dictionary's map of the message type `t`, where both
/// are known.
pub open spec fn type_map(add: Option<DataDictionaryModel>, t: Option<Seq<char>>) -> Option<DDMapModel> {
    match (add, t) {
        (Some(a), Some(x)) => find_message(a.messages, x),
        _ => None,
    }
}

/// Whether `t` counts no group of the map `mm` of a message type.
pub open spec fn body_ungrouped(t: u32, mm: Option<DDMapModel>) -> bool {
    match mm {
        Some(x) => find_group(x.groups, t) is None,
        None => true,
    }
}

/// The state of a reading after the first `k` fields of `fs`.
pub open spec fn reading_at(
    st: ReadState,
    fs: Seq<(u32, Seq<char>)>,
    k: int,
    nh: int,
    nb: int,
    base: MessageModel,
    sdd: Option<DataDictionaryModel>,
    add: Option<DataDictionaryModel>,
) -> bool {
    &&& st.pos == text_pos(fs, k)
    &&& st.msg_map == type_map(add, last_value(fs.take(k), tags::MsgType))
    &&& k >= nh ==> last_value(fs.take(k), tags::MsgType) == last_value(fs.take(nh), tags::MsgType)
    &&& st.expecting_header == (k <= nh)
    &&& st.expecting_body == (k <= nb)
    &&& st.msg == with_fields(base, st.msg.header.fields, st.msg.body.fields, st.msg.trailer.fields)
    &&& read_so_far(st.msg.header.fields, fs, k, 0, sdd)
    &&& read_so_far(st.msg.body.fields, fs, k, 1, sdd)
    &&& read_so_far(st.msg.trailer.fields, fs, k, 2, sdd)
}

proof fn lemma_last_value_step(fs: Seq<(u32, Seq<char>)>, k: int, t: u32)
    requires
        0 <= k < fs.len(),
    ensures
        last_value(fs.take(k + 1), t) == if fs[k].0 == t {
            Some(fs[k].1)
        } else {
            last_value(fs.take(k), t)
        },
{
    assert(fs.take(k + 1).drop_last() =~= fs.take(k));
}

/// Setting the field `tag` of a part of the class of `tag` keeps the part
/// what the reading of the first `k + 1` fields gives.
proof fn lemma_read_so_far_step(
    part: Seq<(u32, Seq<char>)>,
    fs: Seq<(u32, Seq<char>)>,
    k: int,
    class: nat,
    sdd: Option<DataDictionaryModel>,
)
    requires
        0 <= k < fs.len(),
        read_so_far(part, fs, k, class, sdd),
    ensures
        part_of(fs[k].0, sdd) == class ==> read_so_far(
            crate::field_map::put_sorted(part, fs[k].0, fs[k].1),
            fs,
            k + 1,
            class,
            sdd,
        ),
        part_of(fs[k].0, sdd) != class ==> read_so_far(part, fs, k + 1, class, sdd),
{
    let tag = fs[k].0;
    let value = fs[k].1;
    law_set_field_read_back(part, tag, value);
    assert forall|t: u32| #[trigger] last_value(fs.take(k + 1), t) == if tag == t {
        Some(value)
    } else {
        last_value(fs.take(k), t)
    } by {
        lemma_last_value_step(fs, k, t);
    }
    if part_of(tag, sdd) == class {
        let np = crate::field_map::put_sorted(part, tag, value);
        assert forall|t: u32| #[trigger] lookup(np, t) == if part_of(t, sdd) == class {
            last_value(fs.take(k + 1), t)
        } else {
            None
        } by {
            assert(lookup(part, t) == if part_of(t, sdd) == class {
                last_value(fs.take(k), t)
            } else {
                None
            });
        }
    } else {
        assert forall|t: u32| #[trigger] lookup(part, t) == if part_of(t, sdd) == class {
            last_value(fs.take(k + 1), t)
        } else {
            None
        } by {
            assert(lookup(part, t) == if part_of(t, sdd) == class {
                last_value(fs.take(k), t)
            } else {
                None
            });
        }
    }
}

/// Reading the text of `fs` on from its `k`-th field sets each field in the
/// part of the message its tag belongs to.
#[verifier::spinoff_prover]
proof fn lemma_read_rest(
    fs: Seq<(u32, Seq<char>)>,
    k: int,
    st: ReadState,
    nh: int,
    nb: int,
    base: MessageModel,
    sdd: Option<DataDictionaryModel>,
    add: Option<DataDictionaryModel>,
)
    requires
        classes_in_order(fs, nh, nb, sdd, add),
        0 <= k <= fs.len(),
        reading_at(st, fs, k, nh, nb, base, sdd, add),
    ensures
        read_fields(fields_chars(fs), st, false, sdd, add, false, false) matches Ok(r) && reading_at(
            r,
            fs,
            fs.len() as int,
            nh,
            nb,
            base,
            sdd,
            add,
        ),
    decreases fs.len() - k,
{
    let s = fields_chars(fs);
    if k == fs.len() {
        assert(fs.take(k) =~= fs);
    } else {
        lemma_extract_field(fs, k);
        let tag = fs[k].0;
        let value = fs[k].1;
        let next = text_pos(fs, k + 1);
        let m = st.msg;
        lemma_read_so_far_step(m.header.fields, fs, k, 0, sdd);
        lemma_read_so_far_step(m.body.fields, fs, k, 1, sdd);
        lemma_read_so_far_step(m.trailer.fields, fs, k, 2, sdd);
        assert(ungrouped(tag, sdd));
        lemma_last_value_step(fs, k, tags::MsgType);
        let c = part_of(tag, sdd);
        if c != 0 {
            assert(tag != tags::MsgType);
        }
        if nh <= k < nb {
            assert(body_ungrouped(fs[k].0, type_map(add, last_value(fs.take(nh), tags::MsgType))));
        }
        let st2 = if c == 0 {
            ReadState {
                msg: MessageModel {
                    header: MapModel { fields: crate::field_map::put_sorted(m.header.fields, tag, value), ..m.header },
                    ..m
                },
                msg_map: if tag == tags::MsgType {
                    match add {
                        Some(a) => find_message(a.messages, value),
                        None => st.msg_map,
                    }
                } else {
                    st.msg_map
                },
                count: st.count + 1,
                pos: next,
                ..st
            }
        } else if c == 2 {
            ReadState {
                msg: MessageModel {
                    trailer: MapModel { fields: crate::field_map::put_sorted(m.trailer.fields, tag, value), ..m.trailer },
                    ..m
                },
                expecting_header: false,
                expecting_body: false,
                count: st.count + 1,
                pos: next,
                ..st
            }
        } else {
            ReadState {
                msg: MessageModel {
                    body: MapModel { fields: crate::field_map::put_sorted(m.body.fields, tag, value), ..m.body },
                    ..m
                },
                expecting_header: false,
                count: st.count + 1,
                pos: next,
                ..st
            }
        };
        assert(crate::message::read_step(s, st, tag, value, next, sdd, add, false, false) == Ok::<
            ReadState,
            Option<ParseErrorModel>,
        >(st2));
        assert(reading_at(st2, fs, k + 1, nh, nb, base, sdd, add));
        lemma_read_rest(fs, k + 1, st2, nh, nb, base, sdd, add);
    }
}

proof fn lemma_last_value_concat(a: Seq<(u32, Seq<char>)>, b: Seq<(u32, Seq<char>)>, t: u32)
    ensures
        last_value(a + b, t) == match last_value(b, t) {
            Some(x) => Some(x),
            None => last_value(a, t),
        },
    decreases b.len(),
{
    if b.len() == 0 {
        assert(a + b =~= a);
    } else {
        assert((a + b).drop_last() =~= a + b.drop_last());
        lemma_last_value_concat(a, b.drop_last(), t);
    }
}

proof fn lemma_last_value_absent(fs: Seq<(u32, Seq<char>)>, t: u32)
    requires
        forall|i: int| 0 <= i < fs.len() ==> (#[trigger] fs[i]).0 != t,
    ensures
        last_value(fs, t) is None,
    decreases fs.len(),
{
    if fs.len() > 0 {
        assert(fs.last() == fs[fs.len() - 1]);
        lemma_last_value_absent(fs.drop_last(), t);
    }
}

/// Where each field of `w` is one of `fs` and each tag of `fs` is written
/// in `w`, the last value of a tag in `w` is its value in `fs`.
proof fn lemma_last_value_of(w: Seq<(u32, Seq<char>)>, fs: Seq<(u32, Seq<char>)>, t: u32)
    requires
        forall|i: int| 0 <= i < w.len() ==> lookup(fs, #[trigger] w[i].0) == Some(w[i].1),
        has_tag(fs, t) ==> exists|i: int| 0 <= i < w.len() && #[trigger] w[i].0 == t,
    ensures
        last_value(w, t) == lookup(fs, t),
    decreases w.len(),
{
    if w.len() > 0 {
        let p = w.drop_last();
        assert(w.last() == w[w.len() - 1]);
        if w.last().0 != t {
            assert forall|i: int| 0 <= i < p.len() implies lookup(fs, #[trigger] p[i].0) == Some(p[i].1) by {
                assert(p[i] == w[i]);
            }
            if has_tag(fs, t) {
                let i = choose|i: int| 0 <= i < w.len() && #[trigger] w[i].0 == t;
                assert(p[i] == w[i]);
            }
            lemma_last_value_of(p, fs, t);
        }
    } else {
        assert(!has_tag(fs, t));
    }
}

proof fn lemma_lookup_drop_last(a: Seq<(u32, Seq<char>)>, t: u32)
    requires
        sorted_tags(a),
        a.len() > 0,
    ensures
        sorted_tags(a.drop_last()),
        lookup(a.drop_last(), t) == if t == a.last().0 {
            None
        } else {
            lookup(a, t)
        },
{
    let p = a.drop_last();
    let n = a.len() - 1;
    assert(a.last() == a[n]);
    if has_tag(p, t) {
        let j = choose|j: int| 0 <= j < p.len() && p[j].0 == t;
        assert(p[j] == a[j]);
        lemma_lookup_at(p, j);
        lemma_lookup_at(a, j);
        assert(a[j].0 < a[n].0);
    } else if t != a.last().0 && has_tag(a, t) {
        let j = choose|j: int| 0 <= j < a.len() && a[j].0 == t;
        assert(p[j] == a[j]);
    }
}

/// Two maps of fields in ascending order that give the same value for
/// every tag are the same.
#[verifier::spinoff_prover]
pub proof fn lemma_sorted_same_lookup(a: Seq<(u32, Seq<char>)>, b: Seq<(u32, Seq<char>)>)
    requires
        sorted_tags(a),
        sorted_tags(b),
        forall|t: u32| lookup(a, t) == lookup(b, t),
    ensures
        a == b,
    decreases a.len(),
{
    if a.len() == 0 {
        if b.len() > 0 {
            lemma_lookup_at(b, 0);
            assert(lookup(a, b[0].0) == lookup(b, b[0].0));
        }
        assert(a =~= b);
    } else if b.len() == 0 {
        lemma_lookup_at(a, 0);
        assert(lookup(a, a[0].0) == lookup(b, a[0].0));
    } else {
        let na = a.len() - 1;
        let nb = b.len() - 1;
        let x = a[na];
        let y = b[nb];
        lemma_lookup_at(a, na);
        lemma_lookup_at(b, nb);
        assert(lookup(b, x.0) == Some(x.1));
        assert(lookup(a, y.0) == Some(y.1));
        let jb = choose|j: int| 0 <= j < b.len() && b[j].0 == x.0;
        let ja = choose|j: int| 0 <= j < a.len() && a[j].0 == y.0;
        if jb < nb {
            assert(b[jb].0 < b[nb].0);
        }
        if ja < na {
            assert(a[ja].0 < a[na].0);
        }
        assert(x.0 == y.0);
        assert(x == y);
        let a2 = a.drop_last();
        let b2 = b.drop_last();
        assert forall|t: u32| lookup(a2, t) == lookup(b2, t) by {
            lemma_lookup_drop_last(a, t);
            lemma_lookup_drop_last(b, t);
        }
        lemma_lookup_drop_last(a, 0);
        lemma_lookup_drop_last(b, 0);
        lemma_sorted_same_lookup(a2, b2);
        assert(a =~= a2.push(x));
        assert(b =~= b2.push(y));
    }
}

proof fn lemma_lookup_found(fs: Seq<(u32, Seq<char>)>, t: u32)
    requires
        lookup(fs, t) is Some,
    ensures
        exists|j: int| 0 <= j < fs.len() && fs[j].0 == t && Some(fs[j].1) == lookup(fs, t),
{
    let j = choose|j: int| 0 <= j < fs.len() && fs[j].0 == t;
    assert(fs[j].0 == t);
}

/// The written fields of a part whose fields all belong to `class` belong
/// to it too, and give back each value of the part.
proof fn lemma_written_part(m: MapModel, pre: Seq<u32>, class: nat, sdd: Option<DataDictionaryModel>)
    requires
        sorted_tags(m.fields),
        fields_of_class(m.fields, class, sdd),
    ensures
        fields_of_class(written_fields(m, pre), class, sdd),
        forall|t: u32|
            part_of(t, sdd) == class ==> last_value(written_fields(m, pre), t) == #[trigger] lookup(
                m.fields,
                t,
            ),
        forall|t: u32| part_of(t, sdd) != class ==> #[trigger] lookup(m.fields, t) is None,
{
    let w = written_fields(m, pre);
    lemma_written_are_fields(m, pre);
    lemma_fields_are_written(m, pre);
    assert forall|i: int| 0 <= i < w.len() implies part_of(#[trigger] w[i].0, sdd) == class
        && ungrouped(w[i].0, sdd) && !w[i].1.contains('\x01') by {
        lemma_lookup_found(m.fields, w[i].0);
    }
    assert forall|t: u32| part_of(t, sdd) == class implies last_value(w, t) == #[trigger] lookup(m.fields, t) by {
        lemma_last_value_of(w, m.fields, t);
    }
    assert forall|t: u32| part_of(t, sdd) != class implies #[trigger] lookup(m.fields, t) is None by {
        if has_tag(m.fields, t) {
            let j = choose|j: int| 0 <= j < m.fields.len() && m.fields[j].0 == t;
        }
    }
}

proof fn lemma_classes_in_order(
    lh: Seq<(u32, Seq<char>)>,
    lb: Seq<(u32, Seq<char>)>,
    lt: Seq<(u32, Seq<char>)>,
    sdd: Option<DataDictionaryModel>,
    add: Option<DataDictionaryModel>,
)
    requires
        fields_of_class(lh, 0, sdd),
        fields_of_class(lb, 1, sdd),
        fields_of_class(lt, 2, sdd),
        forall|i: int| 0 <= i < lb.len() ==> body_ungrouped(#[trigger] lb[i].0, type_map(add, last_value(lh, tags::MsgType))),
    ensures
        classes_in_order(lh + lb + lt, lh.len() as int, (lh.len() + lb.len()) as int, sdd, add),
{
    let fs = lh + lb + lt;
    let nh = lh.len() as int;
    let nb = (lh.len() + lb.len()) as int;
    assert forall|i: int| 0 <= i < fs.len() implies part_of(#[trigger] fs[i].0, sdd) == (if i < nh {
        0nat
    } else if i < nb {
        1nat
    } else {
        2nat
    }) && !fs[i].1.contains('\x01') by {
        if i < nh {
            assert(fs[i] == lh[i]);
            assert(part_of(lh[i].0, sdd) == 0 && !lh[i].1.contains('\x01'));
        } else if i < nb {
            assert(fs[i] == lb[i - nh]);
            assert(part_of(lb[i - nh].0, sdd) == 1 && !lb[i - nh].1.contains('\x01'));
        } else {
            let j = i - nb;
            assert(0 <= j < lt.len());
            assert(fs[i] == lt[j]);
            assert(part_of(lt[j].0, sdd) == 2);
            assert(!lt[j].1.contains('\x01'));
        }
    }
    assert forall|i: int| 0 <= i < fs.len() implies !(#[trigger] fs[i]).1.contains('\x01') && ungrouped(
        fs[i].0,
        sdd,
    ) by {
        if i < nh {
            assert(fs[i] == lh[i]);
            assert(part_of(lh[i].0, sdd) == 0 && ungrouped(lh[i].0, sdd) && !lh[i].1.contains('\x01'));
        } else if i < nb {
            assert(fs[i] == lb[i - nh]);
            assert(part_of(lb[i - nh].0, sdd) == 1 && ungrouped(lb[i - nh].0, sdd) && !lb[i - nh].1.contains('\x01'));
        } else {
            let j = i - nb;
            assert(0 <= j < lt.len());
            assert(fs[i] == lt[j]);
            assert(part_of(lt[j].0, sdd) == 2);
            assert(ungrouped(lt[j].0, sdd) && !lt[j].1.contains('\x01'));
        }
    }
    assert(fs.take(nh) =~= lh);
    assert forall|i: int| nh <= i < nb implies body_ungrouped(#[trigger] fs[i].0, type_map(add, last_value(fs.take(nh), tags::MsgType))) by {
        assert(fs[i] == lb[i - nh]);
    }
}

/// Reading back, without check, the text that a message without groups is
/// written as gives back the fields of its header, body and trailer, where
/// each field stands in the part that the session dictionary `sdd` (or,
/// where there is none, the standard header and trailer tags) puts its tag
/// in, no field counts a group of that dictionary's header or trailer nor,
/// in the body, of the application dictionary's map of the message's type,
/// and no value holds SOH. The message read into takes the application
/// dictionary and keeps what reading does not set.
#[verifier::spinoff_prover]
pub proof fn law_written_message_reads_back(
    m: MessageModel,
    target: MessageModel,
    sdd: Option<DataDictionaryModel>,
    add: Option<DataDictionaryModel>,
)
    requires
        m.header.groups.len() == 0,
        m.body.groups.len() == 0,
        m.trailer.groups.len() == 0,
        sorted_tags(m.header.fields),
        sorted_tags(m.body.fields),
        sorted_tags(m.trailer.fields),
        fields_of_class(m.header.fields, 0, sdd),
        fields_of_class(m.body.fields, 1, sdd),
        fields_of_class(m.trailer.fields, 2, sdd),
        forall|i: int|
            0 <= i < m.body.fields.len() ==> body_ungrouped(
                #[trigger] m.body.fields[i].0,
                type_map(add, lookup(m.header.fields, tags::MsgType)),
            ),
    ensures
        read_message(target, message_text(m), false, sdd, add, false, false) == Ok::<
            MessageModel,
            Option<ParseErrorModel>,
        >(with_fields(cleared(target, add), m.header.fields, m.body.fields, m.trailer.fields)),
{
    let lh = written_fields(m.header, header_field_order());
    let lb = written_fields(m.body, m.body.order);
    let lt = written_fields(m.trailer, trailer_field_order());
    lemma_map_string_flat(m.header, header_field_order());
    lemma_map_string_flat(m.body, m.body.order);
    lemma_map_string_flat(m.trailer, trailer_field_order());
    lemma_fields_chars_concat(lh, lb);
    lemma_fields_chars_concat(lh + lb, lt);
    let fs = lh + lb + lt;
    assert(message_text(m) == fields_chars(fs));
    lemma_written_part(m.header, header_field_order(), 0, sdd);
    lemma_written_part(m.body, m.body.order, 1, sdd);
    lemma_written_part(m.trailer, trailer_field_order(), 2, sdd);
    let nh = lh.len() as int;
    let nb = (lh.len() + lb.len()) as int;
    assert(part_of(tags::MsgType, sdd) == 0);
    assert(last_value(lh, tags::MsgType) == lookup(m.header.fields, tags::MsgType));
    lemma_written_are_fields(m.body, m.body.order);
    assert forall|i: int| 0 <= i < lb.len() implies body_ungrouped(#[trigger] lb[i].0, type_map(add, last_value(lh, tags::MsgType))) by {
        lemma_lookup_found(m.body.fields, lb[i].0);
    }
    lemma_classes_in_order(lh, lb, lt, sdd, add);
    assert(classes_in_order(fs, nh, nb, sdd, add));
    let base = cleared(target, add);
    let st0 = ReadState {
        msg: base,
        msg_map: None,
        expecting_header: true,
        expecting_body: true,
        count: 0,
        pos: 0,
    };
    assert(fs.take(0) =~= Seq::<(u32, Seq<char>)>::empty());
    assert(st0.msg == with_fields(base, base.header.fields, base.body.fields, base.trailer.fields));
    assert(reading_at(st0, fs, 0, nh, nb, base, sdd, add));
    lemma_read_rest(fs, 0, st0, nh, nb, base, sdd, add);
    let r = read_fields(fields_chars(fs), st0, false, sdd, add, false, false)->Ok_0;
    lemma_finish_read_ok(r, false);
    assert(fs.take(fs.len() as int) =~= fs);
    let h = r.msg.header.fields;
    let b = r.msg.body.fields;
    let t = r.msg.trailer.fields;
    assert forall|x: u32| lookup(h, x) == lookup(m.header.fields, x) by {
        lemma_last_value_concat(lh + lb, lt, x);
        lemma_last_value_concat(lh, lb, x);
        if part_of(x, sdd) == 0 {
            assert forall|i: int| 0 <= i < lt.len() implies (#[trigger] lt[i]).0 != x by {}
            assert forall|i: int| 0 <= i < lb.len() implies (#[trigger] lb[i]).0 != x by {}
            lemma_last_value_absent(lt, x);
            lemma_last_value_absent(lb, x);
        }
    }
    assert forall|x: u32| lookup(b, x) == lookup(m.body.fields, x) by {
        lemma_last_value_concat(lh + lb, lt, x);
        lemma_last_value_concat(lh, lb, x);
        if part_of(x, sdd) == 1 {
            assert forall|i: int| 0 <= i < lt.len() implies (#[trigger] lt[i]).0 != x by {}
            assert forall|i: int| 0 <= i < lh.len() implies (#[trigger] lh[i]).0 != x by {}
            lemma_last_value_absent(lt, x);
            lemma_last_value_absent(lh, x);
        }
    }
    assert forall|x: u32| lookup(t, x) == lookup(m.trailer.fields, x) by {
        lemma_last_value_concat(lh + lb, lt, x);
        lemma_last_value_concat(lh, lb, x);
        if part_of(x, sdd) == 2 {
            assert forall|i: int| 0 <= i < lb.len() implies (#[trigger] lb[i]).0 != x by {}
            assert forall|i: int| 0 <= i < lh.len() implies (#[trigger] lh[i]).0 != x by {}
            lemma_last_value_absent(lb, x);
            lemma_last_value_absent(lh, x);
        }
    }
    lemma_sorted_same_lookup(h, m.header.fields);
    lemma_sorted_same_lookup(b, m.body.fields);
    lemma_sorted_same_lookup(t, m.trailer.fields);
}

} // verus!
