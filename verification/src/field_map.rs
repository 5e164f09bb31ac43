//! Collections of FIX fields: the fields of a header, a body, a trailer or a
//! repeating-group entry, kept in ascending order of their tags.
use vstd::prelude::*;
use vstd::utf8::encode_utf8;

use crate::text::{
    chars_as_bytes, decimal, decimal_chars, parse_unsigned, parse_unsigned_chars, str_chars,
    string_from_chars,
};

verus! {

pub type Tag = u32;

pub type Total = u32;

pub type Length = u32;

pub type FieldOrder = Vec<u32>;

pub type Field = FieldBase;

/// The modulus of the `u32` sums that `len` and `calculate_total` return.
pub open spec fn modulus() -> nat {
    0x1_0000_0000
}

/// The tags that the body length leaves out: BeginString, BodyLength and CheckSum.
pub open spec fn is_length_tag(tag: u32) -> bool {
    tag == 8 || tag == 9 || tag == 10
}

pub open spec fn bytes_sum(s: Seq<u8>) -> nat
    decreases s.len(),
{
    if s.len() == 0 {
        0
    } else {
        bytes_sum(s.drop_last()) + s.last() as nat
    }
}

/// A field as it stands in a message: `tag=value<SOH>`.
pub open spec fn field_chars(tag: u32, value: Seq<char>) -> Seq<char> {
    decimal(tag as nat) + seq!['='] + value + seq!['\x01']
}

/// The bytes that a field takes on the wire, its value encoded in UTF-8.
pub open spec fn field_bytes(tag: u32, value: Seq<char>) -> Seq<u8> {
    chars_as_bytes(decimal(tag as nat)) + seq![61u8] + encode_utf8(value) + seq![1u8]
}

/// A field: a tag and its value.
#[derive(Clone, Debug)]
pub struct FieldBase(Tag, String);

impl View for FieldBase {
    type V = (Tag, Seq<char>);

    closed spec fn view(&self) -> (Tag, Seq<char>) {
        (self.0, self.1@)
    }
}

impl FieldBase {
    pub fn new(tag: Tag, value: String) -> (r: Self)
        ensures
            r@ == (tag, value@),
    {
        FieldBase(tag, value)
    }

    pub fn tag(&self) -> (r: Tag)
        ensures
            r == self@.0,
    {
        self.0
    }

    pub fn value(&self) -> (r: &String)
        ensures
            r@ == self@.1,
    {
        &self.1
    }

    /// The value, as an owned string.
    pub fn string_value(&self) -> (r: String)
        ensures
            r@ == self@.1,
    {
        self.1.clone()
    }

    /// A copy of the field.
    pub fn duplicate(&self) -> (r: Self)
        ensures
            r@ == self@,
    {
        FieldBase(self.0, self.1.clone())
    }
}

/// Whether a field with `tag` stands in `fs`.
pub open spec fn has_tag(fs: Seq<(u32, Seq<char>)>, tag: u32) -> bool {
    exists|i: int| 0 <= i < fs.len() && fs[i].0 == tag
}

/// The value of the field with `tag` in `fs`, whose tags are distinct.
pub open spec fn lookup(fs: Seq<(u32, Seq<char>)>, tag: u32) -> Option<Seq<char>> {
    if has_tag(fs, tag) {
        Some(fs[choose|i: int| 0 <= i < fs.len() && fs[i].0 == tag].1)
    } else {
        None
    }
}

/// Strictly ascending tags.
pub open spec fn sorted_tags(fs: Seq<(u32, Seq<char>)>) -> bool {
    forall|i: int, j: int| 0 <= i < j < fs.len() ==> fs[i].0 < fs[j].0
}

/// The number of fields of `fs` whose tag is below `tag`.
pub open spec fn count_below(fs: Seq<(u32, Seq<char>)>, tag: u32) -> nat
    decreases fs.len(),
{
    if fs.len() == 0 {
        0
    } else {
        count_below(fs.drop_last(), tag) + if fs.last().0 < tag {
            1nat
        } else {
            0nat
        }
    }
}

/// `fs` with the field `tag` set to `value`: in place of the field with
/// that tag, or inserted after the fields with smaller tags.
pub open spec fn put_sorted(fs: Seq<(u32, Seq<char>)>, tag: u32, value: Seq<char>) -> Seq<
    (u32, Seq<char>),
> {
    if exists|i: int| 0 <= i < fs.len() && fs[i].0 == tag {
        fs.update(choose|i: int| 0 <= i < fs.len() && fs[i].0 == tag, (tag, value))
    } else {
        fs.insert(count_below(fs, tag) as int, (tag, value))
    }
}

proof fn lemma_count_below(fs: Seq<(u32, Seq<char>)>, tag: u32, i: int)
    requires
        0 <= i <= fs.len(),
        forall|j: int| 0 <= j < i ==> fs[j].0 < tag,
        forall|j: int| i <= j < fs.len() ==> fs[j].0 >= tag,
    ensures
        count_below(fs, tag) == i,
    decreases fs.len(),
{
    if fs.len() > 0 {
        if i == fs.len() {
            lemma_count_below(fs.drop_last(), tag, i - 1);
        } else {
            lemma_count_below(fs.drop_last(), tag, i);
        }
    }
}

/// In ascending tags, a lookup of the tag of the field at `i` gives its value.
pub proof fn lemma_lookup_at(fs: Seq<(u32, Seq<char>)>, i: int)
    requires
        sorted_tags(fs),
        0 <= i < fs.len(),
    ensures
        lookup(fs, fs[i].0) == Some(fs[i].1),
{
    assert(has_tag(fs, fs[i].0));
    let k = choose|k: int| 0 <= k < fs.len() && fs[k].0 == fs[i].0;
    if k < i {
        assert(fs[k].0 < fs[i].0);
    } else if k > i {
        assert(fs[i].0 < fs[k].0);
    }
}

/// Where a tag that is absent would go in ascending tags: after the
/// `count_below` fields with smaller tags, before those with larger ones.
proof fn lemma_split_point(fs: Seq<(u32, Seq<char>)>, tag: u32)
    requires
        sorted_tags(fs),
        !has_tag(fs, tag),
    ensures
        count_below(fs, tag) <= fs.len(),
        forall|j: int| 0 <= j < count_below(fs, tag) ==> fs[j].0 < tag,
        forall|j: int| count_below(fs, tag) <= j < fs.len() ==> fs[j].0 > tag,
    decreases fs.len(),
{
    if fs.len() > 0 {
        let p = fs.drop_last();
        assert(!has_tag(p, tag)) by {
            if has_tag(p, tag) {
                let k = choose|k: int| 0 <= k < p.len() && p[k].0 == tag;
                assert(fs[k].0 == tag);
            }
        }
        lemma_split_point(p, tag);
        let last = fs[fs.len() - 1].0;
        assert(fs.last().0 == last);
        assert(last != tag) by {
            if last == tag {
                assert(has_tag(fs, tag));
            }
        }
        assert forall|j: int| 0 <= j < p.len() implies fs[j] == p[j] && fs[j].0 < last by {
            assert(fs[j].0 < fs[fs.len() - 1].0);
        }
        if last < tag {
            assert(count_below(fs, tag) == count_below(p, tag) + 1);
            if count_below(p, tag) < p.len() {
                let j = count_below(p, tag) as int;
                assert(p[j].0 > tag);
                assert(p[j].0 < last);
            }
            assert(count_below(p, tag) == p.len());
        } else {
            assert(count_below(fs, tag) == count_below(p, tag));
        }
    }
}

/// Setting a field and reading it back gives the value set, every other
/// field keeps its value, and the tags stay in ascending order.
pub proof fn law_set_field_read_back(fs: Seq<(u32, Seq<char>)>, tag: u32, value: Seq<char>)
    requires
        sorted_tags(fs),
    ensures
        sorted_tags(put_sorted(fs, tag, value)),
        forall|t: u32|
            lookup(put_sorted(fs, tag, value), t) == if t == tag {
                Some(value)
            } else {
                lookup(fs, t)
            },
{
    if exists|i: int| 0 <= i < fs.len() && fs[i].0 == tag {
        let i = choose|i: int| 0 <= i < fs.len() && fs[i].0 == tag;
        lemma_sorted_update(fs, i, value);
    } else {
        lemma_split_point(fs, tag);
        lemma_sorted_insert(fs, count_below(fs, tag) as int, tag, value);
    }
}

/// The sum of the lengths of the fields that the body length counts.
pub open spec fn fields_length(fs: Seq<(u32, Seq<char>)>) -> nat
    decreases fs.len(),
{
    if fs.len() == 0 {
        0
    } else {
        fields_length(fs.drop_last()) + if is_length_tag(fs.last().0) {
            0
        } else {
            field_bytes(fs.last().0, fs.last().1).len()
        }
    }
}

/// The sum of the bytes of the fields that the checksum counts (all but CheckSum).
pub open spec fn fields_total(fs: Seq<(u32, Seq<char>)>) -> nat
    decreases fs.len(),
{
    if fs.len() == 0 {
        0
    } else {
        fields_total(fs.drop_last()) + if fs.last().0 == 10 {
            0
        } else {
            bytes_sum(field_bytes(fs.last().0, fs.last().1))
        }
    }
}

/// The fields of `fs` as text, in order.
pub open spec fn fields_chars(fs: Seq<(u32, Seq<char>)>) -> Seq<char>
    decreases fs.len(),
{
    if fs.len() == 0 {
        Seq::empty()
    } else {
        fields_chars(fs.drop_last()) + field_chars(fs.last().0, fs.last().1)
    }
}

/// What a map holds: its fields in ascending order of their tags, its group
/// entries in the order they were added, the fields that were met a second
/// time while it was read, and the tags that are written first.
#[verifier::ext_equal]
pub struct MapModel {
    pub fields: Seq<(u32, Seq<char>)>,
    pub groups: Seq<GroupModel>,
    pub repeated: Seq<(u32, Seq<char>)>,
    pub order: Seq<u32>,
}

/// What a group entry holds: the tag of the group's counter field, the tag
/// of the field that starts each entry, and the entry's fields.
#[verifier::ext_equal]
pub struct GroupModel {
    pub field: u32,
    pub delim: u32,
    pub map: MapModel,
}

pub open spec fn views(fs: Seq<FieldBase>) -> Seq<(u32, Seq<char>)> {
    fs.map_values(|f: FieldBase| f@)
}

/// A collection of fields with ascending tags, the repeating groups that hang
/// from it, the fields that were met twice while it was read, and the order
/// in which some fields must be written.
pub struct FieldMap {
    fields: Vec<FieldBase>,
    groups: Vec<Group>,
    repeated_tags: Vec<FieldBase>,
    field_order: FieldOrder,
    depth: Ghost<nat>,
    group_models: Ghost<Seq<GroupModel>>,
}

/// An entry of a repeating group.
pub struct Group {
    field: Tag,
    delim: Tag,
    map: FieldMap,
}

impl View for FieldMap {
    type V = MapModel;

    closed spec fn view(&self) -> MapModel {
        MapModel {
            fields: views(self.fields@),
            groups: self.group_models@,
            repeated: views(self.repeated_tags@),
            order: self.field_order@,
        }
    }
}

impl View for Group {
    type V = GroupModel;

    closed spec fn view(&self) -> GroupModel {
        GroupModel { field: self.field, delim: self.delim, map: self.map@ }
    }
}

impl Group {
    /// The entry's fields.
    pub closed spec fn entry(self) -> FieldMap {
        self.map
    }
}

impl FieldMap {
    /// How deeply group entries nest in the map.
    pub closed spec fn depth(self) -> nat {
        self.depth@
    }

    /// Well-formedness: ascending tags, and group entries that are well formed,
    /// nest less deeply than the map, and are what the model says.
    pub closed spec fn wf(self) -> bool
        decreases self.depth(),
    {
        &&& sorted_tags(views(self.fields@))
        &&& self.group_models@.len() == self.groups@.len()
        &&& forall|i: int|
            0 <= i < self.groups@.len() ==> (#[trigger] self.groups@[i]).map.depth@ < self.depth@
                && self.groups@[i].map.wf() && self.group_models@[i] == self.groups@[i]@
    }

    pub open spec fn field_value(self, tag: u32) -> Option<Seq<char>> {
        lookup(self@.fields, tag)
    }

    pub open spec fn has_field(self, tag: u32) -> bool {
        self.field_value(tag) is Some
    }

    /// The fields of a well-formed map have ascending tags.
    pub proof fn lemma_wf_sorted(self)
        requires
            self.wf(),
        ensures
            sorted_tags(self@.fields),
    {
    }
}

/// What a map adds to the body length: its fields, its repeated fields and
/// its group entries, each field as many bytes as it takes on the wire.
pub open spec fn map_len(m: MapModel) -> nat
    decreases m,
{
    fields_length(m.fields) + fields_length(m.repeated) + groups_len(m.groups)
}

pub open spec fn groups_len(gs: Seq<GroupModel>) -> nat
    decreases gs,
{
    if gs.len() == 0 {
        0
    } else {
        proof {
            assert(decreases_to!(gs => gs[gs.len() - 1]));
            assert(decreases_to!(gs => gs.drop_last()));
        }
        groups_len(gs.drop_last()) + map_len(gs.last().map)
    }
}

/// What a map adds to the checksum: the sum of the bytes of its fields,
/// repeated fields and group entries.
pub open spec fn map_total(m: MapModel) -> nat
    decreases m,
{
    fields_total(m.fields) + fields_total(m.repeated) + groups_total(m.groups)
}

pub open spec fn groups_total(gs: Seq<GroupModel>) -> nat
    decreases gs,
{
    if gs.len() == 0 {
        0
    } else {
        proof {
            assert(decreases_to!(gs => gs[gs.len() - 1]));
            assert(decreases_to!(gs => gs.drop_last()));
        }
        groups_total(gs.drop_last()) + map_total(gs.last().map)
    }
}

/// The group entries of `gs` whose counter field is `tag`, in order.
pub open spec fn entries_with(gs: Seq<GroupModel>, tag: u32) -> Seq<GroupModel>
    decreases gs.len(),
{
    if gs.len() == 0 {
        Seq::empty()
    } else if gs.last().field == tag {
        entries_with(gs.drop_last(), tag).push(gs.last())
    } else {
        entries_with(gs.drop_last(), tag)
    }
}

/// The counter tags of `gs`, each once, in the order of their first entry.
pub open spec fn counter_tags(gs: Seq<GroupModel>) -> Seq<u32>
    decreases gs.len(),
{
    if gs.len() == 0 {
        Seq::empty()
    } else if counter_tags(gs.drop_last()).contains(gs.last().field) {
        counter_tags(gs.drop_last())
    } else {
        counter_tags(gs.drop_last()).push(gs.last().field)
    }
}

/// `gs` without its `n`-th entry (counting from 0) whose counter field is `tag`.
pub open spec fn without_entry(gs: Seq<GroupModel>, tag: u32, n: nat) -> Seq<GroupModel>
    decreases gs.len(),
{
    if gs.len() == 0 {
        gs
    } else if gs.last().field == tag && entries_with(gs.drop_last(), tag).len() == n {
        gs.drop_last()
    } else {
        without_entry(gs.drop_last(), tag, n).push(gs.last())
    }
}

/// `gs` without the entries whose counter field is `tag`.
pub open spec fn without_group(gs: Seq<GroupModel>, tag: u32) -> Seq<GroupModel>
    decreases gs.len(),
{
    if gs.len() == 0 {
        gs
    } else if gs.last().field == tag {
        without_group(gs.drop_last(), tag)
    } else {
        without_group(gs.drop_last(), tag).push(gs.last())
    }
}

/// The fields of `fs` that are neither a group counter nor among `pre`, as text.
pub open spec fn plain_fields(fs: Seq<(u32, Seq<char>)>, counters: Seq<u32>, pre: Seq<u32>) -> Seq<char>
    decreases fs.len(),
{
    if fs.len() == 0 {
        Seq::empty()
    } else {
        plain_fields(fs.drop_last(), counters, pre) + if counters.contains(fs.last().0) || pre.contains(
            fs.last().0,
        ) {
            Seq::empty()
        } else {
            field_chars(fs.last().0, fs.last().1)
        }
    }
}

/// The field `tag` of `fs` as text, or nothing where it is not set.
pub open spec fn field_text(fs: Seq<(u32, Seq<char>)>, tag: u32) -> Seq<char> {
    match lookup(fs, tag) {
        Some(v) => field_chars(tag, v),
        None => Seq::empty(),
    }
}

/// A map as text: first the fields of `pre` that are set, each followed by
/// the entries of the group it counts; then the other fields in ascending
/// order, but the group counters; then each group counter, in the order of
/// its first entry, followed by its entries. Each entry is written with its
/// own field order first.
pub open spec fn map_string(m: MapModel, pre: Seq<u32>) -> Seq<char>
    decreases m, 0nat, 0nat,
{
    pre_string(m, pre) + plain_fields(m.fields, counter_tags(m.groups), pre) + counters_string(
        m,
        counter_tags(m.groups),
        pre,
    )
}

pub open spec fn pre_string(m: MapModel, pre: Seq<u32>) -> Seq<char>
    decreases m.groups, 1nat, pre.len(),
{
    if pre.len() == 0 {
        Seq::empty()
    } else if lookup(m.fields, pre.last()) is Some {
        pre_string(m, pre.drop_last()) + field_text(m.fields, pre.last()) + groups_string(
            m.groups,
            pre.last(),
        )
    } else {
        pre_string(m, pre.drop_last())
    }
}

pub open spec fn counters_string(m: MapModel, ts: Seq<u32>, pre: Seq<u32>) -> Seq<char>
    decreases m.groups, 1nat, ts.len(),
{
    if ts.len() == 0 {
        Seq::empty()
    } else if pre.contains(ts.last()) {
        counters_string(m, ts.drop_last(), pre)
    } else {
        counters_string(m, ts.drop_last(), pre) + field_text(m.fields, ts.last()) + groups_string(
            m.groups,
            ts.last(),
        )
    }
}

/// The entries of `gs` whose counter field is `tag`, as text.
pub open spec fn groups_string(gs: Seq<GroupModel>, tag: u32) -> Seq<char>
    decreases gs, 0nat, 0nat,
{
    if gs.len() == 0 {
        Seq::empty()
    } else {
        proof {
            assert(decreases_to!(gs => gs[gs.len() - 1]));
            assert(decreases_to!(gs => gs.drop_last()));
        }
        groups_string(gs.drop_last(), tag) + if gs.last().field == tag {
            map_string(gs.last().map, gs.last().map.order)
        } else {
            Seq::empty()
        }
    }
}

/// Whether `c` stands in `s` from the index `i` on.
pub open spec fn occurs_at(s: Seq<char>, c: Seq<char>, i: int) -> bool {
    0 <= i && i + c.len() <= s.len() && s.subrange(i, i + c.len()) == c
}

proof fn lemma_counters_prefix(m: MapModel, ts: Seq<u32>, pre: Seq<u32>, j: int)
    requires
        0 <= j <= ts.len(),
    ensures
        counters_string(m, ts.take(j), pre).len() <= counters_string(m, ts, pre).len(),
        counters_string(m, ts, pre).subrange(0, counters_string(m, ts.take(j), pre).len() as int) == counters_string(
            m,
            ts.take(j),
            pre,
        ),
    decreases ts.len(),
{
    if j == ts.len() {
        assert(ts.take(j) =~= ts);
    } else {
        lemma_counters_prefix(m, ts.drop_last(), pre, j);
        assert(ts.drop_last().take(j) =~= ts.take(j));
        let a = counters_string(m, ts.take(j), pre);
        let b = counters_string(m, ts.drop_last(), pre);
        let w = counters_string(m, ts, pre);
        assert(w.subrange(0, b.len() as int) =~= b);
        assert(w.subrange(0, a.len() as int) =~= b.subrange(0, a.len() as int));
    }
}

proof fn lemma_pre_prefix(m: MapModel, pre: Seq<u32>, j: int)
    requires
        0 <= j <= pre.len(),
    ensures
        pre_string(m, pre.take(j)).len() <= pre_string(m, pre).len(),
        pre_string(m, pre).subrange(0, pre_string(m, pre.take(j)).len() as int) == pre_string(m, pre.take(j)),
    decreases pre.len(),
{
    if j == pre.len() {
        assert(pre.take(j) =~= pre);
    } else {
        lemma_pre_prefix(m, pre.drop_last(), j);
        assert(pre.drop_last().take(j) =~= pre.take(j));
        let a = pre_string(m, pre.take(j));
        let b = pre_string(m, pre.drop_last());
        let w = pre_string(m, pre);
        assert(w.subrange(0, b.len() as int) =~= b);
        assert(w.subrange(0, a.len() as int) =~= b.subrange(0, a.len() as int));
    }
}

/// A chunk `c` that ends the prefix `p + c` of `w` stands in `w` after `p`.
proof fn lemma_chunk_after(w: Seq<char>, p: Seq<char>, c: Seq<char>, before: Seq<char>, after: Seq<char>)
    requires
        p.len() + c.len() <= w.len(),
        w.subrange(0, (p.len() + c.len()) as int) == p + c,
    ensures
        occurs_at(before + w + after, c, (before.len() + p.len()) as int),
{
    let s = before + w + after;
    let i = (before.len() + p.len()) as int;
    let a = p.len() as int;
    let e = (p.len() + c.len()) as int;
    assert(s.subrange(i, i + c.len()) =~= w.subrange(a, e));
    assert(w.subrange(a, e) =~= (p + c).subrange(a, e));
    assert((p + c).subrange(a, e) =~= c);
}

/// In a map written as text, each group counter that is set stands
/// immediately before the entries it counts: its field followed by the text
/// of its entries appears in the text, whether the counter is among the
/// leading fields `pre` or not.
pub proof fn law_counter_precedes_entries(m: MapModel, pre: Seq<u32>, t: u32)
    requires
        counter_tags(m.groups).contains(t),
        lookup(m.fields, t) is Some,
    ensures
        exists|i: int| #[trigger]
            occurs_at(
                map_string(m, pre),
                field_chars(t, lookup(m.fields, t)->Some_0) + groups_string(m.groups, t),
                i,
            ),
{
    let c = field_chars(t, lookup(m.fields, t)->Some_0) + groups_string(m.groups, t);
    let ts = counter_tags(m.groups);
    let ps = pre_string(m, pre);
    let pf = plain_fields(m.fields, ts, pre);
    let cs = counters_string(m, ts, pre);
    assert(map_string(m, pre) == ps + pf + cs);
    if pre.contains(t) {
        let k = choose|k: int| 0 <= k < pre.len() && pre[k] == t;
        lemma_pre_prefix(m, pre, k + 1);
        let p = pre_string(m, pre.take(k));
        assert(pre.take(k + 1).drop_last() =~= pre.take(k));
        assert(pre_string(m, pre.take(k + 1)) == p + c);
        lemma_chunk_after(ps, p, c, Seq::empty(), pf + cs);
        assert(Seq::<char>::empty() + ps + (pf + cs) =~= map_string(m, pre));
        assert(occurs_at(map_string(m, pre), c, p.len() as int));
    } else {
        let k = choose|k: int| 0 <= k < ts.len() && ts[k] == t;
        lemma_counters_prefix(m, ts, pre, k + 1);
        let p = counters_string(m, ts.take(k), pre);
        assert(ts.take(k + 1).drop_last() =~= ts.take(k));
        assert(counters_string(m, ts.take(k + 1), pre) == p + c);
        lemma_chunk_after(cs, p, c, ps + pf, Seq::empty());
        assert(ps + pf + cs + Seq::<char>::empty() =~= map_string(m, pre));
        assert(occurs_at(map_string(m, pre), c, ((ps + pf).len() + p.len()) as int));
    }
}

pub proof fn lemma_bytes_sum_concat(a: Seq<u8>, b: Seq<u8>)
    ensures
        bytes_sum(a + b) == bytes_sum(a) + bytes_sum(b),
    decreases b.len(),
{
    if b.len() == 0 {
        assert(a + b =~= a);
    } else {
        lemma_bytes_sum_concat(a, b.drop_last());
        assert((a + b).drop_last() =~= a + b.drop_last());
    }
}

#[verifier::spinoff_prover]
proof fn lemma_mod_step(a: int, x: int, y: int)
    requires
        a >= 0,
        x >= 0,
        y >= 0,
    ensures
        ((a + x) % (modulus() as int) + y) % (modulus() as int) == (a + x + y) % (modulus() as int),
{
    let m = modulus() as int;
    let s = a + x;
    vstd::arithmetic::div_mod::lemma_add_mod_noop(s, y, m);
    vstd::arithmetic::div_mod::lemma_add_mod_noop(s % m, y, m);
    vstd::arithmetic::div_mod::lemma_mod_twice(s, m);
    assert((s % m + y) % m == ((s % m) % m + y % m) % m);
    assert((s % m) % m == s % m);
    assert((s + y) % m == (s % m + y % m) % m);
}

proof fn lemma_mod_sum(a: nat, b: nat)
    ensures
        ((a % modulus()) + (b % modulus())) % modulus() == (a + b) % modulus(),
{
    vstd::arithmetic::div_mod::lemma_add_mod_noop(a as int, b as int, modulus() as int);
}

/// `(acc + x) mod 2^32`.
fn add_mod(acc: u32, x: u64) -> (r: u32)
    ensures
        r as nat == (acc as nat + x as nat) % modulus(),
{
    let y: u64 = x % 0x1_0000_0000u64;
    let s: u64 = (acc as u64 + y) % 0x1_0000_0000u64;
    proof {
        vstd::arithmetic::div_mod::lemma_add_mod_noop_right(acc as int, x as int, modulus() as int);
    }
    s as u32
}

/// `(acc + the sum of the bytes of bs) mod 2^32`.
fn bytes_sum_mod(bs: &[u8], acc: u32) -> (r: u32)
    ensures
        r as nat == (acc as nat + bytes_sum(bs@)) % modulus(),
{
    let mut r: u32 = (acc as u64 % 0x1_0000_0000u64) as u32;
    let mut i: usize = 0;
    proof {
        assert(bs@.subrange(0, 0) =~= Seq::<u8>::empty());
    }
    while i < bs.len()
        invariant
            i <= bs@.len(),
            r as nat == (acc as nat + bytes_sum(bs@.subrange(0, i as int))) % modulus(),
        decreases bs.len() - i,
    {
        let b = bs[i];
        proof {
            assert(bs@.subrange(0, i + 1).drop_last() =~= bs@.subrange(0, i as int));
            lemma_mod_step(acc as int, bytes_sum(bs@.subrange(0, i as int)) as int, b as int);
        }
        r = add_mod(r, b as u64);
        i = i + 1;
    }
    assert(bs@.subrange(0, i as int) =~= bs@);
    r
}

/// The bytes of the decimal digits of a tag.
fn tag_bytes(tag: u32) -> (r: Vec<u8>)
    ensures
        r@ == chars_as_bytes(decimal(tag as nat)),
{
    let cs = decimal_chars(tag as u64);
    let mut r: Vec<u8> = Vec::new();
    let mut i: usize = 0;
    while i < cs.len()
        invariant
            i <= cs@.len(),
            cs@ == decimal(tag as nat),
            r@ == chars_as_bytes(cs@.subrange(0, i as int)),
        decreases cs.len() - i,
    {
        r.push(cs[i] as u8);
        assert(chars_as_bytes(cs@.subrange(0, i + 1)) =~= chars_as_bytes(cs@.subrange(0, i as int)).push(cs@[i as int] as u8));
        i = i + 1;
    }
    assert(cs@.subrange(0, i as int) =~= cs@);
    r
}

/// The length of a field on the wire, modulo 2^32, added to `acc`.
fn field_len_mod(f: &FieldBase, acc: u32) -> (r: u32)
    ensures
        r as nat == (acc as nat + field_bytes(f@.0, f@.1).len()) % modulus(),
{
    let digits = tag_bytes(f.tag());
    let value_len: usize = f.value().as_str().as_bytes().len();
    let n1 = add_mod(acc, digits.len() as u64);
    let n2 = add_mod(n1, value_len as u64);
    let n3 = add_mod(n2, 2);
    proof {
        lemma_mod_step(acc as int, digits@.len() as int, value_len as int);
        lemma_mod_step(acc as int, (digits@.len() + value_len) as int, 2);
        assert(field_bytes(f@.0, f@.1).len() == digits@.len() + 1 + encode_utf8(f@.1).len() + 1);
    }
    n3
}

/// The sum of the bytes of a field on the wire, modulo 2^32, added to `acc`.
fn field_total_mod(f: &FieldBase, acc: u32) -> (r: u32)
    ensures
        r as nat == (acc as nat + bytes_sum(field_bytes(f@.0, f@.1))) % modulus(),
{
    let digits = tag_bytes(f.tag());
    let value = f.value().as_str().as_bytes();
    let n1 = bytes_sum_mod(digits.as_slice(), acc);
    let n2 = add_mod(n1, 61);
    let n3 = bytes_sum_mod(value, n2);
    let n4 = add_mod(n3, 1);
    proof {
        let a = digits@;
        let b = value@;
        lemma_mod_step(acc as int, bytes_sum(a) as int, 61);
        lemma_mod_step(acc as int, (bytes_sum(a) + 61) as int, bytes_sum(b) as int);
        lemma_mod_step(acc as int, (bytes_sum(a) + 61 + bytes_sum(b)) as int, 1);
        lemma_bytes_sum_concat(a, seq![61u8]);
        lemma_bytes_sum_concat(a + seq![61u8], b);
        lemma_bytes_sum_concat(a + seq![61u8] + b, seq![1u8]);
        assert(bytes_sum(seq![61u8]) == 61) by {
            assert(seq![61u8].drop_last() =~= Seq::<u8>::empty());
            assert(bytes_sum(Seq::<u8>::empty()) == 0);
            assert(seq![61u8].last() == 61u8);
        }
        assert(bytes_sum(seq![1u8]) == 1) by {
            assert(seq![1u8].drop_last() =~= Seq::<u8>::empty());
            assert(bytes_sum(Seq::<u8>::empty()) == 0);
            assert(seq![1u8].last() == 1u8);
        }
    }
    n4
}

/// The sum of the lengths of the counted fields, modulo 2^32, added to `acc`.
fn fields_len_mod(fs: &Vec<FieldBase>, acc: u32) -> (r: u32)
    ensures
        r as nat == (acc as nat + fields_length(views(fs@))) % modulus(),
{
    let mut r: u32 = (acc as u64 % 0x1_0000_0000u64) as u32;
    let mut i: usize = 0;
    proof {
        assert(views(fs@.subrange(0, 0)) =~= Seq::<(u32, Seq<char>)>::empty());
    }
    while i < fs.len()
        invariant
            i <= fs@.len(),
            r as nat == (acc as nat + fields_length(views(fs@.subrange(0, i as int)))) % modulus(),
        decreases fs.len() - i,
    {
        let f = &fs[i];
        proof {
            assert(views(fs@.subrange(0, i + 1)).drop_last() =~= views(fs@.subrange(0, i as int)));
        }
        let t = f.tag();
        if !(t == 8 || t == 9 || t == 10) {
            let ghost before = r;
            r = field_len_mod(f, r);
            proof {
                lemma_mod_step(acc as int, fields_length(views(fs@.subrange(0, i as int))) as int, field_bytes(f@.0, f@.1).len() as int);
            }
        }
        i = i + 1;
    }
    assert(fs@.subrange(0, i as int) =~= fs@);
    r
}

/// The sum of the bytes of the fields but CheckSum, modulo 2^32, added to `acc`.
fn fields_total_mod(fs: &Vec<FieldBase>, acc: u32) -> (r: u32)
    ensures
        r as nat == (acc as nat + fields_total(views(fs@))) % modulus(),
{
    let mut r: u32 = (acc as u64 % 0x1_0000_0000u64) as u32;
    let mut i: usize = 0;
    proof {
        assert(views(fs@.subrange(0, 0)) =~= Seq::<(u32, Seq<char>)>::empty());
    }
    while i < fs.len()
        invariant
            i <= fs@.len(),
            r as nat == (acc as nat + fields_total(views(fs@.subrange(0, i as int)))) % modulus(),
        decreases fs.len() - i,
    {
        let f = &fs[i];
        proof {
            assert(views(fs@.subrange(0, i + 1)).drop_last() =~= views(fs@.subrange(0, i as int)));
        }
        if f.tag() != 10 {
            r = field_total_mod(f, r);
            proof {
                lemma_mod_step(acc as int, fields_total(views(fs@.subrange(0, i as int))) as int, bytes_sum(field_bytes(f@.0, f@.1)) as int);
            }
        }
        i = i + 1;
    }
    assert(fs@.subrange(0, i as int) =~= fs@);
    r
}

proof fn lemma_sorted_update(fs: Seq<(u32, Seq<char>)>, i: int, v: Seq<char>)
    requires
        sorted_tags(fs),
        0 <= i < fs.len(),
    ensures
        sorted_tags(fs.update(i, (fs[i].0, v))),
        forall|t: u32|
            lookup(fs.update(i, (fs[i].0, v)), t) == if t == fs[i].0 {
                Some(v)
            } else {
                lookup(fs, t)
            },
{
    let gs = fs.update(i, (fs[i].0, v));
    assert forall|t: u32| lookup(gs, t) == if t == fs[i].0 { Some(v) } else { lookup(fs, t) } by {
        if t == fs[i].0 {
            lemma_lookup_at(gs, i);
        } else {
            if has_tag(fs, t) {
                let k = choose|k: int| 0 <= k < fs.len() && fs[k].0 == t;
                lemma_lookup_at(fs, k);
                lemma_lookup_at(gs, k);
            } else {
                assert(!has_tag(gs, t));
            }
        }
    }
}

proof fn lemma_sorted_insert(fs: Seq<(u32, Seq<char>)>, i: int, t0: u32, v: Seq<char>)
    requires
        sorted_tags(fs),
        0 <= i <= fs.len(),
        forall|j: int| 0 <= j < i ==> fs[j].0 < t0,
        forall|j: int| i <= j < fs.len() ==> fs[j].0 > t0,
    ensures
        sorted_tags(fs.insert(i, (t0, v))),
        forall|t: u32|
            lookup(fs.insert(i, (t0, v)), t) == if t == t0 {
                Some(v)
            } else {
                lookup(fs, t)
            },
{
    let gs = fs.insert(i, (t0, v));
    assert(sorted_tags(gs));
    assert forall|t: u32| lookup(gs, t) == if t == t0 { Some(v) } else { lookup(fs, t) } by {
        if t == t0 {
            lemma_lookup_at(gs, i);
        } else {
            if has_tag(fs, t) {
                let k = choose|k: int| 0 <= k < fs.len() && fs[k].0 == t;
                lemma_lookup_at(fs, k);
                if k < i {
                    lemma_lookup_at(gs, k);
                } else {
                    lemma_lookup_at(gs, k + 1);
                }
            } else {
                if has_tag(gs, t) {
                    let k = choose|k: int| 0 <= k < gs.len() && gs[k].0 == t;
                    if k < i {
                        assert(fs[k].0 == t);
                    } else if k > i {
                        assert(fs[k - 1].0 == t);
                    }
                }
            }
        }
    }
}

proof fn lemma_sorted_remove(fs: Seq<(u32, Seq<char>)>, i: int)
    requires
        sorted_tags(fs),
        0 <= i < fs.len(),
    ensures
        sorted_tags(fs.remove(i)),
        forall|t: u32|
            lookup(fs.remove(i), t) == if t == fs[i].0 {
                None
            } else {
                lookup(fs, t)
            },
{
    let gs = fs.remove(i);
    assert(sorted_tags(gs));
    assert forall|t: u32| lookup(gs, t) == if t == fs[i].0 { None } else { lookup(fs, t) } by {
        if has_tag(gs, t) {
            let k = choose|k: int| 0 <= k < gs.len() && gs[k].0 == t;
            lemma_lookup_at(gs, k);
            if k < i {
                lemma_lookup_at(fs, k);
                assert(fs[k].0 < fs[i].0);
            } else {
                lemma_lookup_at(fs, k + 1);
                assert(fs[i].0 < fs[k + 1].0);
            }
        } else if has_tag(fs, t) {
            let k = choose|k: int| 0 <= k < fs.len() && fs[k].0 == t;
            if k < i {
                assert(gs[k].0 == t);
            } else if k > i {
                assert(gs[k - 1].0 == t);
            }
        }
    }
}

proof fn lemma_views_update(fs: Seq<FieldBase>, i: int, f: FieldBase)
    requires
        0 <= i < fs.len(),
    ensures
        views(fs.update(i, f)) == views(fs).update(i, f@),
{
    assert(views(fs.update(i, f)) =~= views(fs).update(i, f@));
}

proof fn lemma_views_insert(fs: Seq<FieldBase>, i: int, f: FieldBase)
    requires
        0 <= i <= fs.len(),
    ensures
        views(fs.insert(i, f)) == views(fs).insert(i, f@),
{
    assert(views(fs.insert(i, f)) =~= views(fs).insert(i, f@));
}

proof fn lemma_views_remove(fs: Seq<FieldBase>, i: int)
    requires
        0 <= i < fs.len(),
    ensures
        views(fs.remove(i)) == views(fs).remove(i),
{
    assert(views(fs.remove(i)) =~= views(fs).remove(i));
}

fn copy_fields(fs: &Vec<FieldBase>) -> (r: Vec<FieldBase>)
    ensures
        r@ == fs@,
{
    let mut r: Vec<FieldBase> = Vec::new();
    let mut i: usize = 0;
    while i < fs.len()
        invariant
            i <= fs@.len(),
            r@ == fs@.subrange(0, i as int),
        decreases fs.len() - i,
    {
        let f = FieldBase(fs[i].0, fs[i].1.clone());
        r.push(f);
        assert(r@ =~= fs@.subrange(0, i + 1));
        i = i + 1;
    }
    assert(fs@.subrange(0, i as int) =~= fs@);
    r
}

pub(crate) fn copy_tags(ts: &Vec<u32>) -> (r: Vec<u32>)
    ensures
        r@ == ts@,
{
    let mut r: Vec<u32> = Vec::new();
    let mut i: usize = 0;
    while i < ts.len()
        invariant
            i <= ts@.len(),
            r@ == ts@.subrange(0, i as int),
        decreases ts.len() - i,
    {
        r.push(ts[i]);
        assert(r@ =~= ts@.subrange(0, i + 1));
        i = i + 1;
    }
    assert(ts@.subrange(0, i as int) =~= ts@);
    r
}

impl Group {
    /// An empty entry of the group counted by `tag`, whose entries start with
    /// `delim`, which is written first.
    pub fn new(tag: Tag, delim: Tag) -> (r: Self)
        ensures
            r.entry().wf(),
            r@ == (GroupModel {
                field: tag,
                delim,
                map: MapModel {
                    fields: Seq::empty(),
                    groups: Seq::empty(),
                    repeated: Seq::empty(),
                    order: seq![delim],
                },
            }),
    {
        let mut order: Vec<u32> = Vec::new();
        order.push(delim);
        let r = Group { field: tag, delim, map: FieldMap::from_field_order(order) };
        assert(r@.map.order =~= seq![delim]);
        r
    }

    /// The tag of the group's counter field.
    pub fn field(&self) -> (r: Tag)
        ensures
            r == self@.field,
    {
        self.field
    }

    /// The tag of the field that starts each entry.
    pub fn delim(&self) -> (r: Tag)
        ensures
            r == self@.delim,
    {
        self.delim
    }

    /// The fields of the entry.
    pub fn map(&self) -> (r: &FieldMap)
        ensures
            *r == self.entry(),
            r@ == self@.map,
    {
        &self.map
    }

    /// The fields of the entry, to change them.
    pub fn map_mut(&mut self) -> (r: &mut FieldMap)
        ensures
            *r == old(self).entry(),
            final(self).entry() == *final(r),
            final(self)@ == (GroupModel { map: final(r)@, ..old(self)@ }),
    {
        &mut self.map
    }

    /// A copy of the entry.
    pub fn duplicate(&self) -> (r: Self)
        requires
            self.entry().wf(),
        ensures
            r@ == self@,
            r.entry().wf(),
            r.entry().depth() == self.entry().depth(),
        decreases self.entry().depth(), 1nat,
    {
        Group { field: self.field, delim: self.delim, map: self.map.duplicate() }
    }
}

impl Default for FieldMap {
    /// An empty map.
    fn default() -> (r: Self)
        ensures
            r.wf(),
            r@ == FieldMap::empty_model(),
    {
        FieldMap::new()
    }
}

impl FieldMap {
    /// The model of an empty map.
    pub open spec fn empty_model() -> MapModel {
        MapModel { fields: Seq::empty(), groups: Seq::empty(), repeated: Seq::empty(), order: Seq::empty() }
    }

    /// An empty map.
    pub fn new() -> (r: Self)
        ensures
            r.wf(),
            r@ == (MapModel {
                fields: Seq::empty(),
                groups: Seq::empty(),
                repeated: Seq::empty(),
                order: Seq::empty(),
            }),
    {
        FieldMap::from_field_order(Vec::new())
    }

    /// An empty map whose fields in `field_order` are written first.
    pub fn from_field_order(field_order: FieldOrder) -> (r: Self)
        ensures
            r.wf(),
            r@ == (MapModel {
                fields: Seq::empty(),
                groups: Seq::empty(),
                repeated: Seq::empty(),
                order: field_order@,
            }),
            r.depth() == 0,
    {
        let r = FieldMap {
            fields: Vec::new(),
            groups: Vec::new(),
            repeated_tags: Vec::new(),
            field_order,
            depth: Ghost(0),
            group_models: Ghost(Seq::empty()),
        };
        assert(r@.fields =~= Seq::<(u32, Seq<char>)>::empty());
        assert(r@.repeated =~= Seq::<(u32, Seq<char>)>::empty());
        r
    }

    /// The map itself.
    pub fn from_field_map(src: FieldMap) -> (r: Self)
        ensures
            r == src,
    {
        src
    }

    /// A copy of the map.
    pub fn duplicate(&self) -> (r: Self)
        requires
            self.wf(),
        ensures
            r@ == self@,
            r.wf(),
            r.depth() == self.depth(),
        decreases self.depth(), 0nat,
    {
        let fields = copy_fields(&self.fields);
        let repeated_tags = copy_fields(&self.repeated_tags);
        let field_order = copy_tags(&self.field_order);
        let mut groups: Vec<Group> = Vec::new();
        let mut i: usize = 0;
        while i < self.groups.len()
            invariant
                self.wf(),
                i <= self.groups@.len(),
                groups@.len() == i,
                forall|k: int|
                    0 <= k < i ==> (#[trigger] groups@[k])@ == self.groups@[k]@ && groups@[k].map.wf()
                        && groups@[k].map.depth@ == self.groups@[k].map.depth@,
            decreases self.groups.len() - i,
        {
            let g = self.groups[i].duplicate();
            groups.push(g);
            i = i + 1;
        }
        FieldMap {
            fields,
            groups,
            repeated_tags,
            field_order,
            depth: Ghost(self.depth@),
            group_models: Ghost(self.group_models@),
        }
    }

    /// Where `tag` stands or would stand among the fields: whether it is
    /// there, and the index of the first field whose tag is not smaller.
    fn position(&self, tag: Tag) -> (r: (bool, usize))
        requires
            self.wf(),
        ensures
            r.1 <= self@.fields.len(),
            forall|j: int| 0 <= j < r.1 ==> self@.fields[j].0 < tag,
            r.0 ==> r.1 < self@.fields.len() && self@.fields[r.1 as int].0 == tag,
            !r.0 ==> forall|j: int| r.1 <= j < self@.fields.len() ==> self@.fields[j].0 > tag,
    {
        let mut i: usize = 0;
        while i < self.fields.len()
            invariant
                self.wf(),
                i <= self.fields@.len(),
                forall|j: int| 0 <= j < i ==> self@.fields[j].0 < tag,
            decreases self.fields.len() - i,
        {
            let t = self.fields[i].0;
            assert(self@.fields[i as int].0 == t);
            if t == tag {
                return (true, i);
            }
            if t > tag {
                return (false, i);
            }
            i = i + 1;
        }
        (false, i)
    }

    proof fn lemma_position_absent(self, tag: Tag, i: int)
        requires
            self.wf(),
            0 <= i <= self@.fields.len(),
            forall|j: int| 0 <= j < i ==> self@.fields[j].0 < tag,
            forall|j: int| i <= j < self@.fields.len() ==> self@.fields[j].0 > tag,
        ensures
            !self.has_field(tag),
    {
        if has_tag(self@.fields, tag) {
            let k = choose|k: int| 0 <= k < self@.fields.len() && self@.fields[k].0 == tag;
            assert(k < i || k >= i);
        }
    }

    /// Sets a field, unless `overwrite` is `Some(true)`: then the map is left
    /// as it is and `false` returned. Otherwise the field replaces the one
    /// with the same tag, or is added, and `true` is returned.
    pub fn set_field_base(&mut self, field: FieldBase, overwrite: Option<bool>) -> (r: bool)
        requires
            old(self).wf(),
        ensures
            final(self).wf(),
            r == !(overwrite == Some(true)),
            !r ==> final(self)@ == old(self)@,
            r ==> forall|t: u32|
                final(self).field_value(t) == if t == field@.0 {
                    Some(field@.1)
                } else {
                    old(self).field_value(t)
                },
            r ==> final(self)@.fields == put_sorted(old(self)@.fields, field@.0, field@.1),
            final(self)@.groups == old(self)@.groups,
            final(self)@.repeated == old(self)@.repeated,
            final(self)@.order == old(self)@.order,
            final(self).depth() == old(self).depth(),
    {
        if matches!(overwrite, Some(b) if b) {
            return false;
        }
        let tag = field.0;
        let (found, i) = self.position(tag);
        let ghost old_fields = self.fields@;
        if found {
            proof {
                lemma_views_update(old_fields, i as int, field);
                lemma_sorted_update(views(old_fields), i as int, field@.1);
                let fs = views(old_fields);
                assert forall|k: int| 0 <= k < fs.len() && fs[k].0 == tag implies k == i by {
                    if k < i {
                        assert(fs[k].0 < fs[i as int].0);
                    } else if k > i {
                        assert(fs[i as int].0 < fs[k].0);
                    }
                }
            }
            self.fields.set(i, field);
        } else {
            proof {
                lemma_views_insert(old_fields, i as int, field);
                lemma_sorted_insert(views(old_fields), i as int, tag, field@.1);
                lemma_count_below(views(old_fields), tag, i as int);
            }
            self.fields.insert(i, field);
        }
        true
    }

    /// Sets the field `tag` to `value`.
    pub fn set_field(&mut self, tag: Tag, value: &str)
        requires
            old(self).wf(),
        ensures
            final(self).wf(),
            forall|t: u32|
                final(self).field_value(t) == if t == tag {
                    Some(value@)
                } else {
                    old(self).field_value(t)
                },
            final(self)@.fields == put_sorted(old(self)@.fields, tag, value@),
            final(self)@.groups == old(self)@.groups,
            final(self)@.repeated == old(self)@.repeated,
            final(self)@.order == old(self)@.order,
            final(self).depth() == old(self).depth(),
    {
        let field_base = FieldBase(tag, value.to_owned());
        self.set_field_base(field_base, None);
    }

    /// The field `tag`, which must be set.
    pub fn get_field(&self, tag: Tag) -> (r: &FieldBase)
        requires
            self.wf(),
            self.has_field(tag),
        ensures
            r@.0 == tag,
            self.field_value(tag) == Some(r@.1),
    {
        let (found, i) = self.position(tag);
        if !found {
            proof {
                self.lemma_position_absent(tag, i as int);
            }
        }
        proof {
            lemma_lookup_at(self@.fields, i as int);
        }
        &self.fields[i]
    }

    /// The field `tag`, which must be set, to change its value. The map stays
    /// well formed as long as the field keeps its tag.
    pub fn get_field_mut(&mut self, tag: Tag) -> (r: &mut FieldBase)
        requires
            old(self).wf(),
            old(self).has_field(tag),
        ensures
            r@.0 == tag,
            old(self).field_value(tag) == Some(r@.1),
            final(r)@.0 == tag ==> final(self).wf() && forall|t: u32|
                final(self).field_value(t) == if t == tag {
                    Some(final(r)@.1)
                } else {
                    old(self).field_value(t)
                },
            final(self)@.groups == old(self)@.groups,
            final(self)@.repeated == old(self)@.repeated,
            final(self)@.order == old(self)@.order,
            final(self).depth() == old(self).depth(),
    {
        let (found, i) = self.position(tag);
        if !found {
            proof {
                self.lemma_position_absent(tag, i as int);
            }
        }
        proof {
            lemma_lookup_at(self@.fields, i as int);
            lemma_sorted_update_any(views(self.fields@), i as int);
        }
        let ghost old_fields = self.fields@;
        let r = &mut self.fields[i];
        proof {
            assert forall|f: FieldBase| #![auto] views(old_fields.update(i as int, f)) == views(old_fields).update(i as int, f@) by {
                lemma_views_update(old_fields, i as int, f);
            }
        }
        r
    }
}

/// Updating the value of the field at `i` keeps the tags ascending, and
/// changes what `lookup` gives for that field's tag only.
proof fn lemma_sorted_update_any(fs: Seq<(u32, Seq<char>)>, i: int)
    requires
        sorted_tags(fs),
        0 <= i < fs.len(),
    ensures
        forall|v: Seq<char>|
            #![auto]
            sorted_tags(fs.update(i, (fs[i].0, v))) && forall|t: u32|
                lookup(fs.update(i, (fs[i].0, v)), t) == if t == fs[i].0 {
                    Some(v)
                } else {
                    lookup(fs, t)
                },
{
    assert forall|v: Seq<char>|
        #![auto]
        sorted_tags(fs.update(i, (fs[i].0, v))) && forall|t: u32|
            lookup(fs.update(i, (fs[i].0, v)), t) == if t == fs[i].0 {
                Some(v)
            } else {
                lookup(fs, t)
            } by {
        lemma_sorted_update(fs, i, v);
    }
}

/// The errors of reading a field of a map.
#[derive(Clone, Debug)]
pub enum FieldMapError {
    /// The field is not set.
    FieldNotFound(Tag),
    /// The field's value is not a number of the expected type.
    IncorrectDataFormat(Tag),
}

impl FieldMap {
    /// The field `tag` read as a `u32`, or why it cannot be: a field that is
    /// not set and a value that is no decimal `u32` are errors that the
    /// caller handles, so reading a field never stops the program.
    pub fn get_int(&self, tag: Tag) -> (r: Result<u32, FieldMapError>)
        requires
            self.wf(),
        ensures
            match self.field_value(tag) {
                None => r == Err::<u32, FieldMapError>(FieldMapError::FieldNotFound(tag)),
                Some(v) => match parse_unsigned(v, u32::MAX as nat) {
                    Some(n) => r == Ok::<u32, FieldMapError>(n as u32),
                    None => r == Err::<u32, FieldMapError>(FieldMapError::IncorrectDataFormat(tag)),
                },
            },
    {
        if !self.is_field_set(tag) {
            return Err(FieldMapError::FieldNotFound(tag));
        }
        let f = self.get_field(tag);
        let cs = str_chars(f.1.as_str());
        match parse_unsigned_chars(cs.as_slice(), u32::MAX as u128) {
            Some(v) => Ok(v as u32),
            None => Err(FieldMapError::IncorrectDataFormat(tag)),
        }
    }

    /// Whether the field `tag` is set.
    pub fn is_field_set(&self, tag: Tag) -> (r: bool)
        requires
            self.wf(),
        ensures
            r == self.has_field(tag),
    {
        let (found, i) = self.position(tag);
        if found {
            proof {
                lemma_lookup_at(self@.fields, i as int);
            }
        } else {
            proof {
                self.lemma_position_absent(tag, i as int);
            }
        }
        found
    }

    /// Removes the field `tag`, where it is set.
    pub fn remove_field(&mut self, tag: Tag)
        requires
            old(self).wf(),
        ensures
            final(self).wf(),
            forall|t: u32|
                final(self).field_value(t) == if t == tag {
                    None
                } else {
                    old(self).field_value(t)
                },
            final(self)@.groups == old(self)@.groups,
            final(self)@.repeated == old(self)@.repeated,
            final(self)@.order == old(self)@.order,
            final(self).depth() == old(self).depth(),
    {
        let (found, i) = self.position(tag);
        if found {
            let ghost old_fields = self.fields@;
            proof {
                lemma_views_remove(old_fields, i as int);
                lemma_sorted_remove(views(old_fields), i as int);
            }
            self.fields.remove(i);
        } else {
            proof {
                self.lemma_position_absent(tag, i as int);
            }
        }
    }

    /// Removes the fields and the group entries; the repeated fields and the
    /// field order stay.
    pub fn clear(&mut self)
        requires
            old(self).wf(),
        ensures
            final(self).wf(),
            final(self)@ == (MapModel {
                fields: Seq::empty(),
                groups: Seq::empty(),
                ..old(self)@
            }),
    {
        self.fields.clear();
        self.groups.clear();
        self.group_models = Ghost(Seq::empty());
        assert(self@.fields =~= Seq::<(u32, Seq<char>)>::empty());
    }

    /// Whether the map has neither fields nor group entries.
    pub fn is_empty(&self) -> (r: bool)
        requires
            self.wf(),
        ensures
            r == (self@.fields.len() == 0 && self@.groups.len() == 0),
    {
        self.fields.len() == 0 && self.groups.len() == 0
    }

    /// The tags of the fields that were met a second time while the map was
    /// read, in the order they were met.
    pub fn repeated_tags(&self) -> (r: Vec<Tag>)
        ensures
            r@ == self@.repeated.map_values(|f: (u32, Seq<char>)| f.0),
    {
        let mut r: Vec<Tag> = Vec::new();
        let mut i: usize = 0;
        while i < self.repeated_tags.len()
            invariant
                i <= self.repeated_tags@.len(),
                r@ == self@.repeated.subrange(0, i as int).map_values(|f: (u32, Seq<char>)| f.0),
            decreases self.repeated_tags.len() - i,
        {
            r.push(self.repeated_tags[i].0);
            assert(self@.repeated.subrange(0, i + 1).map_values(|f: (u32, Seq<char>)| f.0) =~= self@.repeated.subrange(
                0,
                i as int,
            ).map_values(|f: (u32, Seq<char>)| f.0).push(self@.repeated[i as int].0));
            i = i + 1;
        }
        assert(self@.repeated.subrange(0, i as int) =~= self@.repeated);
        r
    }

    /// The fields that were met a second time while the map was read, to
    /// add to them.
    pub fn repeated_tags_mut(&mut self) -> (r: &mut Vec<FieldBase>)
        ensures
            views(r@) == old(self)@.repeated,
            final(self)@ == (MapModel { repeated: views(final(r)@), ..old(self)@ }),
            final(self).wf() == old(self).wf(),
            final(self).depth() == old(self).depth(),
    {
        &mut self.repeated_tags
    }

    /// The fields as pairs of tag and field, in ascending order of their tags.
    pub fn entries(&self) -> (r: Vec<(Tag, FieldBase)>)
        ensures
            r@.len() == self@.fields.len(),
            forall|i: int|
                0 <= i < r@.len() ==> (#[trigger] r@[i]).0 == self@.fields[i].0 && r@[i].1@
                    == self@.fields[i],
    {
        let mut r: Vec<(Tag, FieldBase)> = Vec::new();
        let mut i: usize = 0;
        while i < self.fields.len()
            invariant
                i <= self.fields@.len(),
                r@.len() == i,
                forall|k: int|
                    0 <= k < i ==> (#[trigger] r@[k]).0 == self@.fields[k].0 && r@[k].1@
                        == self@.fields[k],
            decreases self.fields.len() - i,
        {
            let f = self.fields[i].duplicate();
            r.push((f.0, f));
            i = i + 1;
        }
        r
    }
}

/// Whether `t` occurs in `v`.
pub fn contains_tag(v: &Vec<u32>, t: u32) -> (r: bool)
    ensures
        r == v@.contains(t),
{
    let mut i: usize = 0;
    while i < v.len()
        invariant
            i <= v@.len(),
            forall|k: int| 0 <= k < i ==> v@[k] != t,
        decreases v.len() - i,
    {
        if v[i] == t {
            assert(v@[i as int] == t);
            return true;
        }
        i = i + 1;
    }
    false
}

proof fn lemma_without_entry_short(gs: Seq<GroupModel>, tag: u32, n: nat)
    requires
        entries_with(gs, tag).len() <= n,
    ensures
        without_entry(gs, tag, n) == gs,
    decreases gs.len(),
{
    if gs.len() > 0 {
        assert(entries_with(gs.drop_last(), tag).len() <= entries_with(gs, tag).len());
        if gs.last().field == tag {
            assert(entries_with(gs.drop_last(), tag).len() < n);
        }
        lemma_without_entry_short(gs.drop_last(), tag, n);
        assert(gs.drop_last().push(gs.last()) =~= gs);
    }
}

impl FieldMap {
    /// The number of entries of the group counted by `tag`.
    pub fn group_count(&self, tag: Tag) -> (r: usize)
        requires
            self.wf(),
        ensures
            r == entries_with(self@.groups, tag).len(),
    {
        let mut n: usize = 0;
        let mut i: usize = 0;
        while i < self.groups.len()
            invariant
                self.wf(),
                i <= self.groups@.len(),
                n == entries_with(self@.groups.subrange(0, i as int), tag).len(),
                n <= i,
            decreases self.groups.len() - i,
        {
            assert(self@.groups.subrange(0, i + 1).drop_last() =~= self@.groups.subrange(0, i as int));
            assert(self@.groups[i as int] == self.groups@[i as int]@);
            if self.groups[i].field == tag {
                n = n + 1;
            }
            i = i + 1;
        }
        assert(self@.groups.subrange(0, i as int) =~= self@.groups);
        n
    }

    /// The counter tags of the groups, each once, in the order of their first entry.
    pub fn group_tags(&self) -> (r: Vec<Tag>)
        requires
            self.wf(),
        ensures
            r@ == counter_tags(self@.groups),
    {
        let mut r: Vec<Tag> = Vec::new();
        let mut i: usize = 0;
        while i < self.groups.len()
            invariant
                self.wf(),
                i <= self.groups@.len(),
                r@ == counter_tags(self@.groups.subrange(0, i as int)),
            decreases self.groups.len() - i,
        {
            assert(self@.groups.subrange(0, i + 1).drop_last() =~= self@.groups.subrange(0, i as int));
            assert(self@.groups[i as int] == self.groups@[i as int]@);
            let t = self.groups[i].field;
            if !contains_tag(&r, t) {
                r.push(t);
            }
            i = i + 1;
        }
        assert(self@.groups.subrange(0, i as int) =~= self@.groups);
        r
    }

    /// Adds a copy of a group entry. Then, unless `set_count` is `Some(false)`,
    /// the number of the group's entries is offered to `set_field_base` with
    /// `Some(true)`, which leaves the fields as they are.
    pub fn add_group(&mut self, tag: Tag, group: &Group, set_count: Option<bool>)
        requires
            old(self).wf(),
            group.entry().wf(),
        ensures
            final(self).wf(),
            final(self)@ == (MapModel { groups: old(self)@.groups.push(group@), ..old(self)@ }),
    {
        let g = group.duplicate();
        let ghost d = if g.map.depth@ + 1 > self.depth@ {
            (g.map.depth@ + 1) as nat
        } else {
            self.depth@
        };
        let ghost gm = g@;
        self.depth = Ghost(d);
        self.groups.push(g);
        self.group_models = Ghost(self.group_models@.push(gm));
        proof {
            assert forall|i: int| 0 <= i < self.groups@.len() implies (#[trigger] self.groups@[i]).map.depth@
                < self.depth@ && self.groups@[i].map.wf() && self.group_models@[i] == self.groups@[i]@ by {
                if i < old(self).groups@.len() {
                    assert(self.groups@[i] == old(self).groups@[i]);
                }
            }
            assert(self@.groups =~= old(self)@.groups.push(group@));
        }
        if set_count.is_none() || set_count.unwrap() {
            let groupsize = self.group_count(group.field);
            let count = FieldBase::new(group.field, crate::text::decimal_string(groupsize as u64));
            self.set_field_base(count, Some(true));
        }
    }

    /// The `index`-th entry (counting from 1) of the group counted by `field`.
    pub fn get_group(&self, index: u32, field: Tag) -> (r: Group)
        requires
            self.wf(),
            1 <= index <= entries_with(self@.groups, field).len(),
        ensures
            r@ == entries_with(self@.groups, field)[index - 1],
            r.entry().wf(),
            r.entry().depth() < self.depth(),
    {
        let mut n: u32 = 0;
        let mut i: usize = 0;
        while i < self.groups.len()
            invariant
                self.wf(),
                i <= self.groups@.len(),
                n == entries_with(self@.groups.subrange(0, i as int), field).len(),
                n < index,
                1 <= index <= entries_with(self@.groups, field).len(),
            decreases self.groups.len() - i,
        {
            assert(self@.groups.subrange(0, i + 1).drop_last() =~= self@.groups.subrange(0, i as int));
            assert(self@.groups[i as int] == self.groups@[i as int]@);
            proof {
                lemma_entries_with_prefix(self@.groups, field, i as int + 1);
            }
            if self.groups[i].field == field {
                n = n + 1;
                if n == index {
                    proof {
                        let p = entries_with(self@.groups.subrange(0, i as int + 1), field);
                        assert(p.last() == self@.groups[i as int]);
                        assert(p[index - 1] == entries_with(self@.groups, field)[index - 1]);
                    }
                    return self.groups[i].duplicate();
                }
            }
            i = i + 1;
        }
        assert(self@.groups.subrange(0, i as int) =~= self@.groups);
        Group::new(field, 0)
    }

    /// Removes the `index`-th entry (counting from 1) of the group counted by
    /// `field`; the fields stay as they are.
    pub fn remove_group(&mut self, index: u32, field: Tag)
        requires
            old(self).wf(),
            1 <= index <= entries_with(old(self)@.groups, field).len(),
        ensures
            final(self).wf(),
            final(self)@ == (MapModel {
                groups: without_entry(old(self)@.groups, field, (index - 1) as nat),
                ..old(self)@
            }),
    {
        let ghost gs = self@.groups;
        let ghost n: nat = (index - 1) as nat;
        let mut kept: Vec<Group> = Vec::new();
        let ghost mut kept_models: Seq<GroupModel> = Seq::empty();
        let mut seen: usize = 0;
        let mut i: usize = 0;
        proof {
            assert(gs.subrange(0, 0) =~= Seq::<GroupModel>::empty());
        }
        while i < self.groups.len()
            invariant
                self.wf(),
                gs == self@.groups,
                n == index - 1,
                i <= self.groups@.len(),
                seen == entries_with(gs.subrange(0, i as int), field).len(),
                seen <= i,
                kept_models == without_entry(gs.subrange(0, i as int), field, n),
                kept@.len() == kept_models.len(),
                forall|k: int|
                    0 <= k < kept@.len() ==> (#[trigger] kept@[k]).map.depth@ < self.depth@
                        && kept@[k].map.wf() && kept_models[k] == kept@[k]@,
            decreases self.groups.len() - i,
        {
            let ghost pre = gs.subrange(0, i as int);
            assert(gs.subrange(0, i + 1).drop_last() =~= pre);
            assert(gs.subrange(0, i + 1).last() == gs[i as int]);
            assert(gs[i as int] == self.groups@[i as int]@);
            let is_entry = self.groups[i].field == field;
            if is_entry && seen == (index - 1) as usize {
                proof {
                    lemma_without_entry_short(pre, field, n);
                }
            } else {
                let g = self.groups[i].duplicate();
                kept.push(g);
                proof {
                    kept_models = kept_models.push(gs[i as int]);
                }
            }
            if is_entry {
                seen = seen + 1;
            }
            proof {
                lemma_entries_with_prefix(gs, field, i as int + 1);
            }
            i = i + 1;
        }
        assert(gs.subrange(0, i as int) =~= gs);
        self.groups = kept;
        self.group_models = Ghost(kept_models);
    }
}

proof fn lemma_entries_with_prefix(gs: Seq<GroupModel>, tag: u32, k: int)
    requires
        0 <= k <= gs.len(),
    ensures
        entries_with(gs.subrange(0, k), tag).is_prefix_of(entries_with(gs, tag)),
        entries_with(gs.subrange(0, k), tag).len() <= entries_with(gs, tag).len(),
    decreases gs.len(),
{
    if k == gs.len() {
        assert(gs.subrange(0, k) =~= gs);
    } else {
        lemma_entries_with_prefix(gs.drop_last(), tag, k);
        assert(gs.drop_last().subrange(0, k) =~= gs.subrange(0, k));
    }
}

/// Appends `tag=value<SOH>` to `out`.
fn push_field(out: &mut Vec<char>, tag: Tag, value: &str)
    ensures
        final(out)@ == old(out)@ + field_chars(tag, value@),
{
    let digits = decimal_chars(tag as u64);
    let value_chars = str_chars(value);
    let mut i: usize = 0;
    while i < digits.len()
        invariant
            i <= digits@.len(),
            digits@ == decimal(tag as nat),
            out@ == old(out)@ + digits@.subrange(0, i as int),
        decreases digits.len() - i,
    {
        out.push(digits[i]);
        assert(digits@.subrange(0, i + 1) =~= digits@.subrange(0, i as int).push(digits@[i as int]));
        i = i + 1;
    }
    assert(digits@.subrange(0, i as int) =~= digits@);
    out.push('=');
    let ghost mid = out@;
    let mut j: usize = 0;
    while j < value_chars.len()
        invariant
            j <= value_chars@.len(),
            value_chars@ == value@,
            out@ == mid + value_chars@.subrange(0, j as int),
        decreases value_chars.len() - j,
    {
        out.push(value_chars[j]);
        assert(value_chars@.subrange(0, j + 1) =~= value_chars@.subrange(0, j as int).push(value_chars@[j as int]));
        j = j + 1;
    }
    assert(value_chars@.subrange(0, j as int) =~= value_chars@);
    out.push('\x01');
    assert(out@ =~= old(out)@ + field_chars(tag, value@));
}

impl FieldMap {
    /// The number of bytes that the map adds to a message's body length,
    /// modulo 2^32: its fields but BeginString, BodyLength and CheckSum, its
    /// repeated fields and its group entries.
    pub fn len(&self) -> (r: Length)
        requires
            self.wf(),
        ensures
            r as nat == map_len(self@) % modulus(),
        decreases self.depth(),
    {
        let a = fields_len_mod(&self.fields, 0);
        let mut acc = fields_len_mod(&self.repeated_tags, a);
        proof {
            lemma_mod_step(0, fields_length(self@.fields) as int, fields_length(self@.repeated) as int);
            assert(self@.groups.subrange(0, 0) =~= Seq::<GroupModel>::empty());
        }
        let mut i: usize = 0;
        while i < self.groups.len()
            invariant
                self.wf(),
                i <= self.groups@.len(),
                acc as nat == (fields_length(self@.fields) + fields_length(self@.repeated) + groups_len(
                    self@.groups.subrange(0, i as int),
                )) % modulus(),
            decreases self.groups.len() - i,
        {
            let g = &self.groups[i];
            proof {
                assert(self@.groups[i as int] == g@);
                assert(self@.groups.subrange(0, i + 1).drop_last() =~= self@.groups.subrange(0, i as int));
            }
            let l = g.map.len();
            proof {
                lemma_mod_sum(
                    fields_length(self@.fields) + fields_length(self@.repeated) + groups_len(
                        self@.groups.subrange(0, i as int),
                    ),
                    map_len(g.map@),
                );
            }
            acc = add_mod(acc, l as u64);
            i = i + 1;
        }
        assert(self@.groups.subrange(0, i as int) =~= self@.groups);
        acc
    }

    /// The sum of the bytes that the map adds to a message's checksum, modulo
    /// 2^32: its fields but CheckSum, its repeated fields and its group entries.
    pub fn calculate_total(&self) -> (r: Total)
        requires
            self.wf(),
        ensures
            r as nat == map_total(self@) % modulus(),
        decreases self.depth(),
    {
        let a = fields_total_mod(&self.fields, 0);
        let mut acc = fields_total_mod(&self.repeated_tags, a);
        proof {
            lemma_mod_step(0, fields_total(self@.fields) as int, fields_total(self@.repeated) as int);
            assert(self@.groups.subrange(0, 0) =~= Seq::<GroupModel>::empty());
        }
        let mut i: usize = 0;
        while i < self.groups.len()
            invariant
                self.wf(),
                i <= self.groups@.len(),
                acc as nat == (fields_total(self@.fields) + fields_total(self@.repeated) + groups_total(
                    self@.groups.subrange(0, i as int),
                )) % modulus(),
            decreases self.groups.len() - i,
        {
            let g = &self.groups[i];
            proof {
                assert(self@.groups[i as int] == g@);
                assert(self@.groups.subrange(0, i + 1).drop_last() =~= self@.groups.subrange(0, i as int));
            }
            let l = g.map.calculate_total();
            proof {
                lemma_mod_sum(
                    fields_total(self@.fields) + fields_total(self@.repeated) + groups_total(
                        self@.groups.subrange(0, i as int),
                    ),
                    map_total(g.map@),
                );
            }
            acc = add_mod(acc, l as u64);
            i = i + 1;
        }
        assert(self@.groups.subrange(0, i as int) =~= self@.groups);
        acc
    }

    /// Appends the entries of the group counted by `tag` to `out`.
    fn write_groups(&self, tag: Tag, out: &mut Vec<char>)
        requires
            self.wf(),
        ensures
            final(out)@ == old(out)@ + groups_string(self@.groups, tag),
        decreases self.depth(), 0nat,
    {
        let ghost start = out@;
        let mut i: usize = 0;
        assert(self@.groups.subrange(0, 0) =~= Seq::<GroupModel>::empty());
        while i < self.groups.len()
            invariant
                self.wf(),
                i <= self.groups@.len(),
                out@ == start + groups_string(self@.groups.subrange(0, i as int), tag),
            decreases self.groups.len() - i,
        {
            let g = &self.groups[i];
            proof {
                assert(self@.groups[i as int] == g@);
                assert(self@.groups.subrange(0, i + 1).drop_last() =~= self@.groups.subrange(0, i as int));
            }
            if g.field == tag {
                g.map.write_map(&g.map.field_order, out);
            }
            proof {
                assert(out@ =~= start + groups_string(self@.groups.subrange(0, i + 1), tag));
            }
            i = i + 1;
        }
        assert(self@.groups.subrange(0, i as int) =~= self@.groups);
    }

    /// Appends the map as text to `out`, the fields of `pre` first.
    fn write_map(&self, pre: &Vec<u32>, out: &mut Vec<char>)
        requires
            self.wf(),
        ensures
            final(out)@ == old(out)@ + map_string(self@, pre@),
        decreases self.depth(), 1nat,
    {
        let ghost start = out@;
        let ghost m = self@;
        // The fields of `pre` that are set, each with the entries it counts.
        let mut k: usize = 0;
        assert(pre@.subrange(0, 0) =~= Seq::<u32>::empty());
        while k < pre.len()
            invariant
                self.wf(),
                m == self@,
                k <= pre@.len(),
                out@ == start + pre_string(m, pre@.subrange(0, k as int)),
            decreases pre.len() - k,
        {
            let t = pre[k];
            proof {
                assert(pre@.subrange(0, k + 1).drop_last() =~= pre@.subrange(0, k as int));
                assert(pre@.subrange(0, k + 1).last() == t);
            }
            if self.is_field_set(t) {
                let f = self.get_field(t);
                push_field(out, t, f.1.as_str());
                self.write_groups(t, out);
                proof {
                    assert(out@ =~= start + pre_string(m, pre@.subrange(0, k + 1)));
                }
            }
            k = k + 1;
        }
        assert(pre@.subrange(0, k as int) =~= pre@);
        // The other fields, but the group counters.
        let counters = self.group_tags();
        let ghost mid = out@;
        let mut i: usize = 0;
        assert(m.fields.subrange(0, 0) =~= Seq::<(u32, Seq<char>)>::empty());
        while i < self.fields.len()
            invariant
                self.wf(),
                m == self@,
                counters@ == counter_tags(m.groups),
                i <= self.fields@.len(),
                out@ == mid + plain_fields(m.fields.subrange(0, i as int), counters@, pre@),
            decreases self.fields.len() - i,
        {
            let f = &self.fields[i];
            proof {
                assert(m.fields.subrange(0, i + 1).drop_last() =~= m.fields.subrange(0, i as int));
                assert(m.fields.subrange(0, i + 1).last() == f@);
            }
            if !contains_tag(&counters, f.0) && !contains_tag(pre, f.0) {
                push_field(out, f.0, f.1.as_str());
            }
            proof {
                assert(out@ =~= mid + plain_fields(m.fields.subrange(0, i + 1), counters@, pre@));
            }
            i = i + 1;
        }
        assert(m.fields.subrange(0, i as int) =~= m.fields);
        // The group counters, each followed by its entries.
        let ghost mid2 = out@;
        let mut j: usize = 0;
        assert(counters@.subrange(0, 0) =~= Seq::<u32>::empty());
        while j < counters.len()
            invariant
                self.wf(),
                m == self@,
                j <= counters@.len(),
                out@ == mid2 + counters_string(m, counters@.subrange(0, j as int), pre@),
            decreases counters.len() - j,
        {
            let t = counters[j];
            proof {
                assert(counters@.subrange(0, j + 1).drop_last() =~= counters@.subrange(0, j as int));
                assert(counters@.subrange(0, j + 1).last() == t);
            }
            if !contains_tag(pre, t) {
                if self.is_field_set(t) {
                    let f = self.get_field(t);
                    push_field(out, t, f.1.as_str());
                }
                self.write_groups(t, out);
            }
            proof {
                assert(out@ =~= mid2 + counters_string(m, counters@.subrange(0, j + 1), pre@));
            }
            j = j + 1;
        }
        assert(counters@.subrange(0, j as int) =~= counters@);
        assert(out@ =~= start + map_string(m, pre@));
    }

    /// The map as text, the fields of `pre_fields` first, or where it is
    /// `None`, those of the map's own field order.
    pub fn calculate_string(&self, pre_fields: Option<FieldOrder>) -> (r: String)
        requires
            self.wf(),
        ensures
            r@ == map_string(
                self@,
                match pre_fields {
                    Some(p) => p@,
                    None => self@.order,
                },
            ),
    {
        let mut out: Vec<char> = Vec::new();
        match pre_fields {
            Some(p) => self.write_map(&p, &mut out),
            None => self.write_map(&self.field_order, &mut out),
        }
        assert(out@ =~= Seq::<char>::empty() + out@);
        string_from_chars(&out)
    }
}

/// Each entry of `gs` counted by `tag` is an entry of `gs`.
pub proof fn lemma_entries_with_members(gs: Seq<GroupModel>, tag: u32)
    ensures
        forall|k: int|
            0 <= k < entries_with(gs, tag).len() ==> exists|j: int|
                0 <= j < gs.len() && gs[j] == #[trigger] entries_with(gs, tag)[k],
    decreases gs.len(),
{
    if gs.len() > 0 {
        lemma_entries_with_members(gs.drop_last(), tag);
        let es = entries_with(gs, tag);
        let ps = entries_with(gs.drop_last(), tag);
        assert forall|k: int| 0 <= k < es.len() implies exists|j: int|
            0 <= j < gs.len() && gs[j] == #[trigger] es[k] by {
            if k < ps.len() {
                let j = choose|j: int| 0 <= j < gs.drop_last().len() && gs.drop_last()[j] == ps[k];
                assert(gs[j] == es[k]);
            } else {
                assert(gs[gs.len() - 1] == es[k]);
            }
        }
    }
}

impl FieldMap {
    /// Copies of the entries of the group counted by `tag`, in order.
    pub fn group_entries(&self, tag: Tag) -> (r: Vec<Group>)
        requires
            self.wf(),
        ensures
            r@.len() == entries_with(self@.groups, tag).len(),
            forall|k: int|
                0 <= k < r@.len() ==> (#[trigger] r@[k])@ == entries_with(self@.groups, tag)[k]
                    && r@[k].entry().wf() && r@[k].entry().depth() < self.depth(),
    {
        let mut r: Vec<Group> = Vec::new();
        let mut i: usize = 0;
        while i < self.groups.len()
            invariant
                self.wf(),
                i <= self.groups@.len(),
                r@.len() == entries_with(self@.groups.subrange(0, i as int), tag).len(),
                forall|k: int|
                    0 <= k < r@.len() ==> (#[trigger] r@[k])@ == entries_with(self@.groups.subrange(0, i as int), tag)[k]
                        && r@[k].entry().wf() && r@[k].entry().depth() < self.depth(),
            decreases self.groups.len() - i,
        {
            assert(self@.groups.subrange(0, i + 1).drop_last() =~= self@.groups.subrange(0, i as int));
            assert(self@.groups[i as int] == self.groups@[i as int]@);
            if self.groups[i].field == tag {
                let g = self.groups[i].duplicate();
                r.push(g);
            }
            i = i + 1;
        }
        assert(self@.groups.subrange(0, i as int) =~= self@.groups);
        r
    }
}

} // verus!
