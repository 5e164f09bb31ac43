//! The data dictionary: which fields, groups and messages a FIX version
//! defines, built from a FIX specification, and the checks that a message is
//! validated against.
use vstd::prelude::*;

use crate::field_map::{
    counter_tags, entries_with, lemma_entries_with_members, lookup, FieldBase, FieldMap, FieldMapError, Group, GroupModel, MapModel, Tag,
};
use crate::message::{Message, MessageModel};
use crate::text::{parse_unsigned_chars, push_str_chars, str_chars, str_eq, string_from_chars};

verus! {

/// What a field definition holds.
pub struct DDFieldModel {
    pub tag: u32,
    pub name: Seq<char>,
    pub enums: Seq<(Seq<char>, Seq<char>)>,
    pub field_type: Seq<char>,
    pub multiple: bool,
}

/// Whether a field type is one whose values are lists of enumerated values.
pub open spec fn is_multiple_value_type(t: Seq<char>) -> bool {
    t == "MULTIPLEVALUESTRING"@ || t == "MULTIPLESTRINGVALUE"@ || t == "MULTIPLECHARVALUE"@
}

/// Whether `value` is one of the enumerated values of `enums`.
pub open spec fn has_enum(enums: Seq<(Seq<char>, Seq<char>)>, value: Seq<char>) -> bool {
    exists|i: int| 0 <= i < enums.len() && enums[i].0 == value
}

/// The enumerated values of a field as text.
pub open spec fn enum_views(es: Seq<(String, String)>) -> Seq<(Seq<char>, Seq<char>)> {
    es.map_values(|e: (String, String)| (e.0@, e.1@))
}

/// No enumerated value occurs twice.
pub open spec fn unique_enum_keys(es: Seq<(Seq<char>, Seq<char>)>) -> bool {
    forall|i: int, j: int| 0 <= i < j < es.len() ==> es[i].0 != es[j].0
}

/// `es` with the value `e.0` described as `e.1`: in place of the entry
/// with that value, or added.
pub open spec fn put_enum(es: Seq<(Seq<char>, Seq<char>)>, e: (Seq<char>, Seq<char>)) -> Seq<
    (Seq<char>, Seq<char>),
> {
    if exists|i: int| 0 <= i < es.len() && es[i].0 == e.0 {
        es.update(choose|i: int| 0 <= i < es.len() && es[i].0 == e.0, e)
    } else {
        es.push(e)
    }
}

/// The enumerated values of `es` keyed by value, as a map collects them:
/// each value once, in the order it first comes, with its last description.
pub open spec fn keyed_enums(es: Seq<(Seq<char>, Seq<char>)>) -> Seq<(Seq<char>, Seq<char>)>
    decreases es.len(),
{
    if es.len() == 0 {
        Seq::empty()
    } else {
        put_enum(keyed_enums(es.drop_last()), es.last())
    }
}

/// Keyed enumerated values have no value twice.
pub proof fn lemma_keyed_enums_unique(es: Seq<(Seq<char>, Seq<char>)>)
    ensures
        unique_enum_keys(keyed_enums(es)),
    decreases es.len(),
{
    if es.len() > 0 {
        lemma_keyed_enums_unique(es.drop_last());
        let k = keyed_enums(es.drop_last());
        let e = es.last();
        if exists|i: int| 0 <= i < k.len() && k[i].0 == e.0 {
            let c = choose|i: int| 0 <= i < k.len() && k[i].0 == e.0;
            let n = k.update(c, e);
            assert forall|i: int, j: int| 0 <= i < j < n.len() implies n[i].0 != n[j].0 by {
                assert(n[i].0 == k[i].0 && n[j].0 == k[j].0);
            }
        }
    }
}

/// Where the value `key` stands among `es`.
fn enum_index(es: &Vec<(String, String)>, key: &str) -> (r: Option<usize>)
    ensures
        r matches Some(j) ==> j < es@.len() && enum_views(es@)[j as int].0 == key@,
        r is None ==> forall|k: int| 0 <= k < es@.len() ==> enum_views(es@)[k].0 != key@,
{
    let mut j: usize = 0;
    while j < es.len()
        invariant
            j <= es@.len(),
            forall|k: int| 0 <= k < j ==> enum_views(es@)[k].0 != key@,
        decreases es.len() - j,
    {
        if str_eq(es[j].0.as_str(), key) {
            return Some(j);
        }
        j = j + 1;
    }
    None
}

/// The enumerated values of `es` keyed by value.
fn keyed(es: &Vec<(String, String)>) -> (r: Vec<(String, String)>)
    ensures
        enum_views(r@) == keyed_enums(enum_views(es@)),
{
    let mut r: Vec<(String, String)> = Vec::new();
    let mut i: usize = 0;
    while i < es.len()
        invariant
            i <= es@.len(),
            enum_views(r@) == keyed_enums(enum_views(es@).take(i as int)),
        decreases es.len() - i,
    {
        proof {
            lemma_keyed_enums_unique(enum_views(es@).take(i as int));
        }
        let ghost before = enum_views(r@);
        let ghost e = enum_views(es@)[i as int];
        assert(enum_views(es@).take(i + 1).drop_last() =~= enum_views(es@).take(i as int));
        assert(enum_views(es@).take(i + 1).last() == e);
        let found = enum_index(&r, es[i].0.as_str());
        let entry = (es[i].0.clone(), es[i].1.clone());
        if let Some(j) = found {
            proof {
                assert(before[j as int].0 == e.0);
                let c = choose|k: int| 0 <= k < before.len() && before[k].0 == e.0;
                if c != j as int {
                    assert(before[c].0 == before[j as int].0);
                }
            }
            r.set(j, entry);
            assert(enum_views(r@) =~= before.update(j as int, e));
        } else {
            assert(!(exists|k: int| 0 <= k < before.len() && before[k].0 == e.0));
            r.push(entry);
            assert(enum_views(r@) =~= before.push(e));
        }
        i = i + 1;
    }
    assert(enum_views(es@).take(i as int) =~= enum_views(es@));
    r
}

/// A field definition: its tag, its name, its enumerated values with their
/// descriptions, and its type.
pub struct DDField {
    tag: Tag,
    name: String,
    enum_dictionary: Vec<(String, String)>,
    field_type: String,
    is_multiple_value_field_with_enums: bool,
}

impl View for DDField {
    type V = DDFieldModel;

    closed spec fn view(&self) -> DDFieldModel {
        DDFieldModel {
            tag: self.tag,
            name: self.name@,
            enums: enum_views(self.enum_dictionary@),
            field_type: self.field_type@,
            multiple: self.is_multiple_value_field_with_enums,
        }
    }
}

fn copy_enums(es: &Vec<(String, String)>) -> (r: Vec<(String, String)>)
    ensures
        r@.map_values(|e: (String, String)| (e.0@, e.1@)) == es@.map_values(
            |e: (String, String)| (e.0@, e.1@),
        ),
{
    let mut r: Vec<(String, String)> = Vec::new();
    let mut i: usize = 0;
    while i < es.len()
        invariant
            i <= es@.len(),
            r@.len() == i,
            forall|k: int| 0 <= k < i ==> (#[trigger] r@[k]).0@ == es@[k].0@ && r@[k].1@ == es@[k].1@,
        decreases es.len() - i,
    {
        r.push((es[i].0.clone(), es[i].1.clone()));
        i = i + 1;
    }
    assert(r@.map_values(|e: (String, String)| (e.0@, e.1@)) =~= es@.map_values(
        |e: (String, String)| (e.0@, e.1@),
    ));
    r
}

impl DDField {
    /// No enumerated value of the field occurs twice.
    #[verifier::type_invariant]
    spec fn enums_keyed(self) -> bool {
        unique_enum_keys(enum_views(self.enum_dictionary@))
    }

    /// A field definition; its enumerated values are kept by value, the
    /// last description of a value given twice winning; its type tells
    /// whether its values are lists.
    pub fn new(tag: Tag, name: String, enum_dictionary: Vec<(String, String)>, field_type: String) -> (r: Self)
        ensures
            r@ == (DDFieldModel {
                tag,
                name: name@,
                enums: keyed_enums(enum_views(enum_dictionary@)),
                field_type: field_type@,
                multiple: is_multiple_value_type(field_type@),
            }),
    {
        let ghost given = enum_views(enum_dictionary@);
        let enum_dictionary = keyed(&enum_dictionary);
        proof {
            lemma_keyed_enums_unique(given);
        }
        let is_multiple_value_field_with_enums = str_eq(field_type.as_str(), "MULTIPLEVALUESTRING")
            || str_eq(field_type.as_str(), "MULTIPLESTRINGVALUE") || str_eq(
            field_type.as_str(),
            "MULTIPLECHARVALUE",
        );
        DDField { tag, name, enum_dictionary, field_type, is_multiple_value_field_with_enums }
    }

    pub fn tag(&self) -> (r: Tag)
        ensures
            r == self@.tag,
    {
        self.tag
    }

    pub fn name(&self) -> (r: &String)
        ensures
            r@ == self@.name,
    {
        &self.name
    }

    /// Whether the field has enumerated values.
    pub fn has_enums(&self) -> (r: bool)
        ensures
            r == (self@.enums.len() > 0),
    {
        self.enum_dictionary.len() > 0
    }

    /// The enumerated values, each once with its description.
    pub fn enums(&self) -> (r: &Vec<(String, String)>)
        ensures
            r@.map_values(|e: (String, String)| (e.0@, e.1@)) == self@.enums,
            unique_enum_keys(self@.enums),
    {
        proof {
            use_type_invariant(self);
        }
        &self.enum_dictionary
    }

    pub fn field_type(&self) -> (r: &String)
        ensures
            r@ == self@.field_type,
    {
        &self.field_type
    }

    /// Whether the field's values are lists of enumerated values.
    pub fn is_multiple_value_field_with_enums(&self) -> (r: bool)
        ensures
            r == self@.multiple,
    {
        self.is_multiple_value_field_with_enums
    }

    /// Whether `value` is one of the field's enumerated values.
    fn has_enum_value(&self, value: &str) -> (r: bool)
        ensures
            r == has_enum(self@.enums, value@),
    {
        let mut i: usize = 0;
        while i < self.enum_dictionary.len()
            invariant
                i <= self.enum_dictionary@.len(),
                forall|k: int| 0 <= k < i ==> self@.enums[k].0 != value@,
            decreases self.enum_dictionary.len() - i,
        {
            if str_eq(self.enum_dictionary[i].0.as_str(), value) {
                assert(self@.enums[i as int].0 == value@);
                return true;
            }
            i = i + 1;
        }
        false
    }

    /// A copy of the definition.
    pub fn duplicate(&self) -> (r: Self)
        ensures
            r@ == self@,
    {
        proof {
            use_type_invariant(self);
        }
        DDField {
            tag: self.tag,
            name: self.name.clone(),
            enum_dictionary: copy_enums(&self.enum_dictionary),
            field_type: self.field_type.clone(),
            is_multiple_value_field_with_enums: self.is_multiple_value_field_with_enums,
        }
    }
}

/// What a map of a data dictionary holds: its field definitions, its group
/// definitions keyed by tag, and the tags of its required fields.
#[verifier::ext_equal]
pub struct DDMapModel {
    pub fields: Seq<DDFieldModel>,
    pub groups: Seq<(u32, DDGroupModel)>,
    pub required: Seq<u32>,
}

/// What a group definition holds: the tag of its counter field, the tag of
/// the field that starts each entry, whether it is required, and its map.
#[verifier::ext_equal]
pub struct DDGroupModel {
    pub num_fld: u32,
    pub delim: u32,
    pub required: bool,
    pub map: DDMapModel,
}

impl DDMapModel {
    pub open spec fn empty() -> DDMapModel {
        DDMapModel { fields: Seq::empty(), groups: Seq::empty(), required: Seq::empty() }
    }
}

/// The definition of the field `tag` among `fs`.
pub open spec fn find_field(fs: Seq<DDFieldModel>, tag: u32) -> Option<DDFieldModel> {
    if exists|i: int| 0 <= i < fs.len() && fs[i].tag == tag {
        Some(fs[choose|i: int| 0 <= i < fs.len() && fs[i].tag == tag])
    } else {
        None
    }
}

/// `fs` with `f` in place of the definition with its tag, or with `f` added.
pub open spec fn put_field(fs: Seq<DDFieldModel>, f: DDFieldModel) -> Seq<DDFieldModel> {
    if exists|i: int| 0 <= i < fs.len() && fs[i].tag == f.tag {
        fs.update(choose|i: int| 0 <= i < fs.len() && fs[i].tag == f.tag, f)
    } else {
        fs.push(f)
    }
}

/// The group definition keyed by `tag` among `gs`.
pub open spec fn find_group(gs: Seq<(u32, DDGroupModel)>, tag: u32) -> Option<DDGroupModel> {
    if exists|i: int| 0 <= i < gs.len() && gs[i].0 == tag {
        Some(gs[choose|i: int| 0 <= i < gs.len() && gs[i].0 == tag].1)
    } else {
        None
    }
}

/// `gs` with `g` keyed by `tag`, in place of the one that was, or added.
pub open spec fn put_group(gs: Seq<(u32, DDGroupModel)>, tag: u32, g: DDGroupModel) -> Seq<
    (u32, DDGroupModel),
> {
    if exists|i: int| 0 <= i < gs.len() && gs[i].0 == tag {
        gs.update(choose|i: int| 0 <= i < gs.len() && gs[i].0 == tag, (tag, g))
    } else {
        gs.push((tag, g))
    }
}

/// `ts` with `t`, added where it is missing.
pub open spec fn put_tag(ts: Seq<u32>, t: u32) -> Seq<u32> {
    if ts.contains(t) {
        ts
    } else {
        ts.push(t)
    }
}

pub open spec fn unique_field_tags(fs: Seq<DDFieldModel>) -> bool {
    forall|i: int, j: int| 0 <= i < j < fs.len() ==> fs[i].tag != fs[j].tag
}

/// Among fields with distinct tags, the field at `k` is the one found by its tag.
pub proof fn lemma_find_field_at(fs: Seq<DDFieldModel>, k: int)
    requires
        unique_field_tags(fs),
        0 <= k < fs.len(),
    ensures
        find_field(fs, fs[k].tag) == Some(fs[k]),
{
    let c = choose|i: int| 0 <= i < fs.len() && fs[i].tag == fs[k].tag;
    if c < k {
        assert(fs[c].tag != fs[k].tag);
    } else if c > k {
        assert(fs[k].tag != fs[c].tag);
    }
}

pub open spec fn unique_group_keys(gs: Seq<(u32, DDGroupModel)>) -> bool {
    forall|i: int, j: int| 0 <= i < j < gs.len() ==> gs[i].0 != gs[j].0
}

pub open spec fn unique_tags(ts: Seq<u32>) -> bool {
    forall|i: int, j: int| 0 <= i < j < ts.len() ==> ts[i] != ts[j]
}

/// The fields, groups and required fields of a message, a header, a
/// trailer or a group.
pub struct DDMap {
    fields: Vec<DDField>,
    groups: Vec<(Tag, DDGroup)>,
    required_fields: Vec<Tag>,
    depth: Ghost<nat>,
    group_models: Ghost<Seq<(u32, DDGroupModel)>>,
}

/// A group definition.
pub struct DDGroup {
    num_fld: u32,
    delim: u32,
    required: bool,
    map: DDMap,
}

pub open spec fn field_views(fs: Seq<DDField>) -> Seq<DDFieldModel> {
    fs.map_values(|f: DDField| f@)
}

impl View for DDMap {
    type V = DDMapModel;

    closed spec fn view(&self) -> DDMapModel {
        DDMapModel {
            fields: field_views(self.fields@),
            groups: self.group_models@,
            required: self.required_fields@,
        }
    }
}

impl View for DDGroup {
    type V = DDGroupModel;

    closed spec fn view(&self) -> DDGroupModel {
        DDGroupModel {
            num_fld: self.num_fld,
            delim: self.delim,
            required: self.required,
            map: self.map@,
        }
    }
}

impl Default for DDMap {
    /// An empty map.
    fn default() -> (r: Self)
        ensures
            r.wf(),
            r@ == DDMapModel::empty(),
            r.depth() == 0,
    {
        DDMap::new()
    }
}

impl DDMap {
    /// How deeply group definitions nest in the map.
    pub closed spec fn depth(self) -> nat {
        self.depth@
    }

    /// Well-formedness: no tag occurs twice among the fields, the group keys
    /// or the required fields, and the group definitions are well formed and
    /// are what the model says.
    pub closed spec fn wf(self) -> bool
        decreases self.depth(),
    {
        &&& unique_field_tags(self@.fields)
        &&& unique_group_keys(self@.groups)
        &&& unique_tags(self@.required)
        &&& self.group_models@.len() == self.groups@.len()
        &&& forall|i: int|
            0 <= i < self.groups@.len() ==> (#[trigger] self.groups@[i]).1.map.depth@ < self.depth@
                && self.groups@[i].1.map.wf() && self.group_models@[i] == (
                self.groups@[i].0,
                self.groups@[i].1@,
            )
    }

    /// An empty map.
    pub fn new() -> (r: Self)
        ensures
            r.wf(),
            r@ == DDMapModel::empty(),
            r.depth() == 0,
    {
        let r = DDMap {
            fields: Vec::new(),
            groups: Vec::new(),
            required_fields: Vec::new(),
            depth: Ghost(0),
            group_models: Ghost(Seq::empty()),
        };
        assert(r@.fields =~= Seq::<DDFieldModel>::empty());
        r
    }

    /// Where the field `tag` stands among the fields, if it is defined.
    fn field_index(&self, tag: Tag) -> (r: Option<usize>)
        requires
            self.wf(),
        ensures
            r matches Some(i) ==> i < self@.fields.len() && self@.fields[i as int].tag == tag,
            r is None ==> forall|i: int| 0 <= i < self@.fields.len() ==> self@.fields[i].tag != tag,
    {
        let mut i: usize = 0;
        while i < self.fields.len()
            invariant
                i <= self.fields@.len(),
                forall|k: int| 0 <= k < i ==> self@.fields[k].tag != tag,
            decreases self.fields.len() - i,
        {
            if self.fields[i].tag == tag {
                return Some(i);
            }
            i = i + 1;
        }
        None
    }

    /// Where the group keyed by `tag` stands among the groups, if it is defined.
    fn group_index(&self, tag: Tag) -> (r: Option<usize>)
        requires
            self.wf(),
        ensures
            r matches Some(i) ==> i < self@.groups.len() && self@.groups[i as int].0 == tag,
            r is None ==> forall|i: int| 0 <= i < self@.groups.len() ==> self@.groups[i].0 != tag,
    {
        let mut i: usize = 0;
        while i < self.groups.len()
            invariant
                self.wf(),
                i <= self.groups@.len(),
                forall|k: int| 0 <= k < i ==> self@.groups[k].0 != tag,
            decreases self.groups.len() - i,
        {
            assert(self@.groups[i as int].0 == self.groups@[i as int].0);
            if self.groups[i].0 == tag {
                return Some(i);
            }
            i = i + 1;
        }
        None
    }

    /// Adds a field definition, in place of the one with the same tag.
    pub fn add_field(&mut self, field: DDField)
        requires
            old(self).wf(),
        ensures
            final(self).wf(),
            final(self)@ == (DDMapModel { fields: put_field(old(self)@.fields, field@), ..old(self)@ }),
            final(self).depth() == old(self).depth(),
            find_field(final(self)@.fields, field@.tag) == Some(field@),
            forall|t: u32| t != field@.tag ==> find_field(final(self)@.fields, t) == find_field(old(self)@.fields, t),
    {
        let ghost f = field@;
        let ghost fs0 = old(self)@.fields;
        match self.field_index(field.tag) {
            Some(i) => {
                proof {
                    assert forall|k: int| 0 <= k < old(self)@.fields.len() && old(self)@.fields[k].tag == f.tag implies k == i by {
                        if k != i {
                            assert(old(self)@.fields[k].tag != old(self)@.fields[i as int].tag);
                        }
                    }
                }
                self.fields.set(i, field);
                assert(self@.fields =~= old(self)@.fields.update(i as int, f));
                proof {
                    lemma_find_field_at(self@.fields, i as int);
                }
            },
            None => {
                self.fields.push(field);
                assert(self@.fields =~= old(self)@.fields.push(f));
                proof {
                    lemma_find_field_at(self@.fields, fs0.len() as int);
                }
            },
        }
        proof {
            let fs1 = self@.fields;
            assert forall|t: u32| t != f.tag implies find_field(fs1, t) == find_field(fs0, t) by {
                if exists|k: int| 0 <= k < fs0.len() && fs0[k].tag == t {
                    let k = choose|k: int| 0 <= k < fs0.len() && fs0[k].tag == t;
                    assert(fs1[k] == fs0[k]);
                    lemma_find_field_at(fs0, k);
                    lemma_find_field_at(fs1, k);
                } else {
                    assert forall|k: int| 0 <= k < fs1.len() implies fs1[k].tag != t by {
                        if k < fs0.len() && fs1[k] == fs0[k] {
                        }
                    }
                }
            }
        }
    }

    /// The tags of the fields of a well-formed map are distinct.
    pub proof fn lemma_unique_fields(self)
        requires
            self.wf(),
        ensures
            unique_field_tags(self@.fields),
    {
    }

    /// Whether the field `tag` is defined.
    pub fn is_field(&self, tag: Tag) -> (r: bool)
        requires
            self.wf(),
        ensures
            r == find_field(self@.fields, tag) is Some,
    {
        match self.field_index(tag) {
            Some(i) => {
                assert(self@.fields[i as int].tag == tag);
                true
            },
            None => false,
        }
    }

    /// The definition of the field `tag`.
    pub fn get_field(&self, tag: Tag) -> (r: Option<&DDField>)
        requires
            self.wf(),
        ensures
            r matches Some(f) ==> find_field(self@.fields, tag) == Some(f@),
            r is None ==> find_field(self@.fields, tag) is None,
    {
        match self.field_index(tag) {
            Some(i) => {
                proof {
                    let k = choose|k: int| 0 <= k < self@.fields.len() && self@.fields[k].tag == tag;
                    if k != i {
                        assert(self@.fields[k].tag != self@.fields[i as int].tag);
                    }
                }
                Some(&self.fields[i])
            },
            None => None,
        }
    }

    /// Adds a group definition, keyed by the tag of the field that starts
    /// its entries, in place of the one with the same key.
    pub fn add_group(&mut self, group: DDGroup)
        requires
            old(self).wf(),
            group.entry().wf(),
        ensures
            final(self).wf(),
            final(self)@ == (DDMapModel {
                groups: put_group(old(self)@.groups, group@.delim, group@),
                ..old(self)@
            }),
    {
        let key = group.delim;
        self.insert_group(key, group);
    }

    /// Puts `group` under the key `tag`, in place of the one with that key.
    fn insert_group(&mut self, tag: Tag, group: DDGroup)
        requires
            old(self).wf(),
            group.map.wf(),
        ensures
            final(self).wf(),
            final(self)@ == (DDMapModel { groups: put_group(old(self)@.groups, tag, group@), ..old(self)@ }),
    {
        let ghost g = group@;
        let ghost d = if group.map.depth@ + 1 > self.depth@ {
            (group.map.depth@ + 1) as nat
        } else {
            self.depth@
        };
        self.depth = Ghost(d);
        match self.group_index(tag) {
            Some(i) => {
                proof {
                    assert forall|k: int| 0 <= k < old(self)@.groups.len() && old(self)@.groups[k].0 == tag implies k == i by {
                        if k != i {
                            assert(old(self)@.groups[k].0 != old(self)@.groups[i as int].0);
                        }
                    }
                }
                self.groups.set(i, (tag, group));
                self.group_models = Ghost(self.group_models@.update(i as int, (tag, g)));
                proof {
                    assert(self@.groups =~= old(self)@.groups.update(i as int, (tag, g)));
                    assert(self@.fields =~= old(self)@.fields);
                    assert forall|k: int| 0 <= k < self.groups@.len() implies (#[trigger] self.groups@[k]).1.map.depth@
                        < self.depth@ && self.groups@[k].1.map.wf() && self.group_models@[k] == (
                        self.groups@[k].0,
                        self.groups@[k].1@,
                    ) by {
                        if k != i {
                            assert(self.groups@[k] == old(self).groups@[k]);
                        }
                    }
                    assert(unique_group_keys(self@.groups));
                    assert(self.wf());
                    assert(put_group(old(self)@.groups, tag, g) == old(self)@.groups.update(i as int, (tag, g)));
                }
            },
            None => {
                assert(self@.groups == old(self)@.groups);
                assert(forall|k: int| 0 <= k < old(self)@.groups.len() ==> old(self)@.groups[k].0 != tag);
                self.groups.push((tag, group));
                self.group_models = Ghost(self.group_models@.push((tag, g)));
                proof {
                    assert(self@.groups =~= old(self)@.groups.push((tag, g)));
                    assert(self@.fields =~= old(self)@.fields);
                    assert forall|k: int| 0 <= k < self.groups@.len() implies (#[trigger] self.groups@[k]).1.map.depth@
                        < self.depth@ && self.groups@[k].1.map.wf() && self.group_models@[k] == (
                        self.groups@[k].0,
                        self.groups@[k].1@,
                    ) by {
                        if k < old(self).groups@.len() {
                            assert(self.groups@[k] == old(self).groups@[k]);
                        }
                    }
                    assert(unique_group_keys(self@.groups));
                    assert(self.wf());
                    assert(put_group(old(self)@.groups, tag, g) == old(self)@.groups.push((tag, g)));
                }
            },
        }
    }

    /// Whether a group is keyed by `tag`.
    pub fn is_group(&self, tag: Tag) -> (r: bool)
        requires
            self.wf(),
        ensures
            r == find_group(self@.groups, tag) is Some,
    {
        match self.group_index(tag) {
            Some(i) => {
                assert(self@.groups[i as int].0 == tag);
                true
            },
            None => false,
        }
    }

    /// The group keyed by `tag`.
    pub fn get_group(&self, tag: Tag) -> (r: Option<&DDGroup>)
        requires
            self.wf(),
        ensures
            r matches Some(g) ==> find_group(self@.groups, tag) == Some(g@) && g.entry().wf()
                && g.entry().depth() < self.depth(),
            r is None ==> find_group(self@.groups, tag) is None,
    {
        match self.group_index(tag) {
            Some(i) => {
                proof {
                    let k = choose|k: int| 0 <= k < self@.groups.len() && self@.groups[k].0 == tag;
                    if k != i {
                        assert(self@.groups[k].0 != self@.groups[i as int].0);
                    }
                    assert(self.group_models@[i as int] == (self.groups@[i as int].0, self.groups@[i as int].1@));
                }
                Some(&self.groups[i].1)
            },
            None => None,
        }
    }

    /// The tags of the required fields.
    pub fn required_fields(&self) -> (r: &Vec<Tag>)
        ensures
            r@ == self@.required,
    {
        &self.required_fields
    }

    /// The tags of the required fields, to change them; the map stays well
    /// formed as long as no tag occurs twice.
    pub fn required_fields_mut(&mut self) -> (r: &mut Vec<Tag>)
        requires
            old(self).wf(),
        ensures
            r@ == old(self)@.required,
            final(self)@ == (DDMapModel { required: final(r)@, ..old(self)@ }),
            final(self).wf() == unique_tags(final(r)@),
            final(self).depth() == old(self).depth(),
    {
        &mut self.required_fields
    }

    /// Marks the field `tag` as required.
    pub fn add_required_field(&mut self, tag: Tag)
        requires
            old(self).wf(),
        ensures
            final(self).wf(),
            final(self)@ == (DDMapModel { required: put_tag(old(self)@.required, tag), ..old(self)@ }),
            final(self).depth() == old(self).depth(),
    {
        if !crate::field_map::contains_tag(&self.required_fields, tag) {
            self.required_fields.push(tag);
        }
    }
}

impl DDGroup {
    /// The group's map.
    pub closed spec fn entry(self) -> DDMap {
        self.map
    }

    /// A group definition counted by `num_fld`, with no fields yet.
    pub fn new(num_fld: u32, required: bool) -> (r: Self)
        ensures
            r.entry().wf(),
            r.entry().depth() == 0,
            r@ == (DDGroupModel { num_fld, delim: 0, required, map: DDMapModel::empty() }),
    {
        DDGroup { num_fld, delim: 0, required, map: DDMap::new() }
    }

    pub fn num_fld(&self) -> (r: u32)
        ensures
            r == self@.num_fld,
    {
        self.num_fld
    }

    pub fn delim(&self) -> (r: u32)
        ensures
            r == self@.delim,
    {
        self.delim
    }

    pub fn required(&self) -> (r: bool)
        ensures
            r == self@.required,
    {
        self.required
    }

    /// The group's fields, groups and required fields.
    pub fn map(&self) -> (r: &DDMap)
        ensures
            r@ == self@.map,
            *r == self.entry(),
    {
        &self.map
    }
}

/// The errors of validating a message against a data dictionary, and of
/// building a data dictionary.
#[derive(Clone, Debug)]
pub enum MessageValidationError {
    UnsupportedVersion(String),
    RepeatedTag(Tag),
    NoTagValue(Tag),
    InvalidMessageType(String),
    MissingGroupDefinition(),
    RequiredTagMissing(Tag),
    InvalidTagNumber(Tag),
    IncorrectTagValue(Tag),
    TagNotDefinedForMessage(Tag, String),
    RepeatingGroupCountMismatch(Tag),
    InvalidStructure(Tag),
    FieldMapError(FieldMapError),
    DictionaryParseException(String),
}

impl From<FieldMapError> for MessageValidationError {
    fn from(e: FieldMapError) -> (r: Self) {
        MessageValidationError::FieldMapError(e)
    }
}

impl vstd::std_specs::convert::FromSpecImpl<FieldMapError> for MessageValidationError {
    open spec fn obeys_from_spec() -> bool {
        true
    }

    open spec fn from_spec(v: FieldMapError) -> Self {
        MessageValidationError::FieldMapError(v)
    }
}

/// The errors of building a data dictionary from a specification. None is
/// returned: a specification that cannot be built is refused by the
/// precondition of `DataDictionary::new`.
#[derive(Clone, Debug)]
pub enum SpecError {
    InvalidSpec,
}

// ------------------------------
//            FIX SPEC

/// A FIX specification: its version, the parts of its header and trailer,
/// its messages, its components and its fields.
pub struct FixSpec {
    pub fix_type: String,
    pub major: String,
    pub minor: String,
    pub servicepack: String,
    pub header: Header,
    pub messages: Messages,
    pub trailer: Trailer,
    pub components: Components,
    pub fields: Fields,
}

/// The parts of the header, in the order they are defined.
pub struct Header {
    pub values: Vec<MessagePart>,
}

/// The messages, in the order they are defined.
pub struct Messages {
    pub values: Vec<MessageDefinition>,
}

/// The field definitions, in the order they are defined.
pub struct Fields {
    pub values: Vec<FieldDefinition>,
}

/// The component definitions, in the order they are defined.
pub struct Components {
    pub values: Vec<ComponentDefinition>,
}

/// The parts of the trailer, in the order they are defined.
pub struct Trailer {
    pub values: Vec<MessagePart>,
}

/// A field of a message, a component or a group: its name and whether it is
/// required (`"Y"`).
pub struct Field {
    pub name: String,
    pub required: String,
}

/// A component used by a message, a component or a group.
pub struct Component {
    pub name: String,
    pub required: String,
}

/// A component: its name and its parts.
pub struct ComponentDefinition {
    pub name: String,
    pub values: Vec<MessagePart>,
}

/// Something with a name.
pub trait Named {
    fn name(&self) -> &str;
}

impl Named for Field {
    fn name(&self) -> (r: &str)
        ensures
            r@ == self.name@,
    {
        self.name.as_str()
    }
}

impl Named for ComponentDefinition {
    fn name(&self) -> (r: &str)
        ensures
            r@ == self.name@,
    {
        self.name.as_str()
    }
}

/// A part of a message, a component or a group.
pub enum MessagePart {
    Field(Field),
    Component(Component),
    GroupDefinition(GroupDefinition),
}

impl MessagePart {
    pub open spec fn part_name(self) -> Seq<char> {
        match self {
            MessagePart::Field(f) => f.name@,
            MessagePart::Component(c) => c.name@,
            MessagePart::GroupDefinition(g) => g.name@,
        }
    }
}

impl Named for MessagePart {
    fn name(&self) -> (r: &str)
        ensures
            r@ == self.part_name(),
    {
        match self {
            MessagePart::Field(f) => f.name.as_str(),
            MessagePart::Component(f) => f.name.as_str(),
            MessagePart::GroupDefinition(f) => f.name.as_str(),
        }
    }
}

/// A message: its name, its type, its category and its parts.
pub struct MessageDefinition {
    pub name: String,
    pub msgtype: String,
    pub msgcat: Option<String>,
    pub fields: Vec<MessagePart>,
}

impl Named for MessageDefinition {
    fn name(&self) -> (r: &str)
        ensures
            r@ == self.name@,
    {
        self.name.as_str()
    }
}

/// A repeating group: the name of its counter field, whether it is
/// required, and the parts of each entry.
pub struct GroupDefinition {
    pub name: String,
    pub required: String,
    pub fields: Vec<MessagePart>,
}

/// A field: its number, its name, its type and its enumerated values.
pub struct FieldDefinition {
    pub number: String,
    pub name: String,
    pub field_type: String,
    pub values: Vec<FieldValue>,
}

impl Named for FieldDefinition {
    fn name(&self) -> (r: &str)
        ensures
            r@ == self.name@,
    {
        self.name.as_str()
    }
}

/// An enumerated value of a field and its description.
pub struct FieldValue {
    pub enum_values: String,
    pub description: String,
}

/// The first definition among `fs` of the field named `name`.
pub open spec fn field_named(fs: Seq<DDFieldModel>, name: Seq<char>) -> Option<DDFieldModel>
    decreases fs.len(),
{
    if fs.len() == 0 {
        None
    } else if fs[0].name == name {
        Some(fs[0])
    } else {
        field_named(fs.drop_first(), name)
    }
}

/// The parts of the first component among `cs` named `name`.
pub open spec fn component_named(cs: Seq<ComponentDefinition>, name: Seq<char>) -> Option<
    Seq<MessagePart>,
>
    decreases cs.len(),
{
    if cs.len() == 0 {
        None
    } else if cs[0].name@ == name {
        Some(cs[0].values@)
    } else {
        component_named(cs.drop_first(), name)
    }
}

pub open spec fn undefined_field_text(name: Seq<char>) -> Seq<char> {
    "Field '"@ + name + "' is not defined in <fields> section."@
}

pub open spec fn undefined_component_text(name: Seq<char>) -> Seq<char> {
    "Component '"@ + name + "' is not defined in <components> section."@
}

pub open spec fn nested_component_text(name: Seq<char>) -> Seq<char> {
    "Component '"@ + name + "' is used within itself."@
}

/// Whether a part is required: it is marked `"Y"`, and stands in no
/// component or in a required one.
pub open spec fn is_required(mark: Seq<char>, component_required: Option<bool>) -> bool {
    mark == "Y"@ && match component_required {
        Some(b) => b,
        None => true,
    }
}

/// A map after a field part: the field marked required where it is, and
/// its definition added where it is missing.
pub open spec fn with_field(m: DDMapModel, f: DDFieldModel, required: bool) -> DDMapModel {
    let m1 = if required {
        DDMapModel { required: put_tag(m.required, f.tag), ..m }
    } else {
        m
    };
    if find_field(m1.fields, f.tag) is Some {
        m1
    } else {
        DDMapModel { fields: put_field(m1.fields, f), ..m1 }
    }
}

/// The delimiter of a group being read: the first field, where it is unset.
/// A map that is no group has none.
pub open spec fn first_delim(delim: Option<u32>, tag: u32) -> Option<u32> {
    match delim {
        Some(d) => if d == 0 {
            Some(tag)
        } else {
            Some(d)
        },
        None => None,
    }
}

/// Reading `parts` into a map (with the delimiter where the map is a
/// group's), in order: a field adds its definition and required mark; a
/// group also adds the group read from its own parts; a component is read
/// in place of the rest, its parts required where it is. `fuel` bounds how
/// deeply components nest; it is spent only where a component uses itself.
pub open spec fn parse_parts(
    m: DDMapModel,
    delim: Option<u32>,
    parts: Seq<MessagePart>,
    fields: Seq<DDFieldModel>,
    comps: Seq<ComponentDefinition>,
    comp_req: Option<bool>,
    fuel: nat,
) -> Result<(DDMapModel, Option<u32>), Seq<char>>
    decreases fuel, parts,
{
    if parts.len() == 0 {
        Ok((m, delim))
    } else {
        proof {
            assert(decreases_to!(parts => parts[0]));
            assert(decreases_to!(parts => parts.drop_first()));
        }
        match parts[0] {
            MessagePart::Field(f) => match field_named(fields, f.name@) {
                None => Err(undefined_field_text(f.name@)),
                Some(ddf) => parse_parts(
                    with_field(m, ddf, is_required(f.required@, comp_req)),
                    first_delim(delim, ddf.tag),
                    parts.drop_first(),
                    fields,
                    comps,
                    comp_req,
                    fuel,
                ),
            },
            MessagePart::GroupDefinition(g) => match field_named(fields, g.name@) {
                None => Err(undefined_field_text(g.name@)),
                Some(ddf) => {
                    let required = is_required(g.required@, comp_req);
                    proof {
                        assert(decreases_to!(parts => g.fields@));
                    }
                    match parse_parts(DDMapModel::empty(), Some(0u32), g.fields@, fields, comps, None, fuel) {
                        Err(e) => Err(e),
                        Ok(inner) => {
                            let grp = DDGroupModel {
                                num_fld: ddf.tag,
                                delim: match inner.1 {
                                    Some(d) => d,
                                    None => 0,
                                },
                                required,
                                map: inner.0,
                            };
                            let m2 = with_field(m, ddf, required);
                            parse_parts(
                                DDMapModel { groups: put_group(m2.groups, ddf.tag, grp), ..m2 },
                                first_delim(delim, ddf.tag),
                                parts.drop_first(),
                                fields,
                                comps,
                                comp_req,
                                fuel,
                            )
                        },
                    }
                },
            },
            MessagePart::Component(c) => match component_named(comps, c.name@) {
                None => Err(undefined_component_text(c.name@)),
                Some(cparts) => if fuel == 0 {
                    Err(nested_component_text(c.name@))
                } else {
                    parse_parts(m, delim, cparts, fields, comps, Some(c.required@ == "Y"@), (fuel - 1) as nat)
                },
            },
        }
    }
}

/// The first definition among `fs` of the field named `name`.
fn field_by_name<'a>(fs: &'a Vec<DDField>, name: &str) -> (r: Option<&'a DDField>)
    ensures
        r matches Some(f) ==> field_named(field_views(fs@), name@) == Some(f@),
        r is None ==> field_named(field_views(fs@), name@) is None,
{
    let mut i: usize = 0;
    assert(field_views(fs@).subrange(0, fs@.len() as int) =~= field_views(fs@));
    while i < fs.len()
        invariant
            i <= fs@.len(),
            field_named(field_views(fs@), name@) == field_named(
                field_views(fs@).subrange(i as int, fs@.len() as int),
                name@,
            ),
        decreases fs.len() - i,
    {
        let ghost rest = field_views(fs@).subrange(i as int, fs@.len() as int);
        assert(rest.drop_first() =~= field_views(fs@).subrange(i + 1, fs@.len() as int));
        assert(rest[0] == fs@[i as int]@);
        if str_eq(fs[i].name.as_str(), name) {
            return Some(&fs[i]);
        }
        i = i + 1;
    }
    None
}

/// The parts of the first component among `cs` named `name`.
fn component_by_name<'a>(cs: &'a Vec<ComponentDefinition>, name: &str) -> (r: Option<&'a Vec<MessagePart>>)
    ensures
        r matches Some(p) ==> component_named(cs@, name@) == Some(p@),
        r is None ==> component_named(cs@, name@) is None,
{
    let mut i: usize = 0;
    assert(cs@.subrange(0, cs@.len() as int) =~= cs@);
    while i < cs.len()
        invariant
            i <= cs@.len(),
            component_named(cs@, name@) == component_named(cs@.subrange(i as int, cs@.len() as int), name@),
        decreases cs.len() - i,
    {
        let ghost rest = cs@.subrange(i as int, cs@.len() as int);
        assert(rest.drop_first() =~= cs@.subrange(i + 1, cs@.len() as int));
        if str_eq(cs[i].name.as_str(), name) {
            return Some(&cs[i].values);
        }
        i = i + 1;
    }
    None
}

/// The error that `text` around `name` describes.
fn parse_error(before: &str, name: &str, after: &str) -> (r: MessageValidationError)
    ensures
        r matches MessageValidationError::DictionaryParseException(s) && s@ == before@ + name@ + after@,
{
    let mut v: Vec<char> = Vec::new();
    push_str_chars(&mut v, before);
    push_str_chars(&mut v, name);
    push_str_chars(&mut v, after);
    MessageValidationError::DictionaryParseException(string_from_chars(v.as_slice()))
}

/// Adds what a field part adds to a map: the required mark, and the
/// definition where it is missing.
fn add_part_field(map: &mut DDMap, field: &DDField, required: bool)
    requires
        old(map).wf(),
    ensures
        final(map).wf(),
        final(map)@ == with_field(old(map)@, field@, required),
        final(map).depth() == old(map).depth(),
{
    if required {
        map.add_required_field(field.tag);
    }
    if !map.is_field(field.tag) {
        map.add_field(field.duplicate());
    }
}

/// Reads `parts` into `map`, whose delimiter is `delim` where it is a
/// group's, as `parse_parts` says.
fn parse_msg_el(
    map: &mut DDMap,
    delim: &mut Option<u32>,
    parts: &Vec<MessagePart>,
    fields: &Vec<DDField>,
    comps: &Vec<ComponentDefinition>,
    comp_req: Option<bool>,
    fuel: usize,
) -> (r: Result<(), MessageValidationError>)
    requires
        old(map).wf(),
    ensures
        match parse_parts(old(map)@, *old(delim), parts@, field_views(fields@), comps@, comp_req, fuel as nat) {
            Ok(res) => r is Ok && final(map)@ == res.0 && *final(delim) == res.1 && final(map).wf(),
            Err(e) => r matches Err(MessageValidationError::DictionaryParseException(s)) && s@ == e,
        },
    decreases fuel, parts@,
{
    let ghost target = parse_parts(old(map)@, *old(delim), parts@, field_views(fields@), comps@, comp_req, fuel as nat);
    let mut i: usize = 0;
    assert(parts@.subrange(0, parts@.len() as int) =~= parts@);
    while i < parts.len()
        invariant
            map.wf(),
            i <= parts@.len(),
            target == parse_parts(old(map)@, *old(delim), parts@, field_views(fields@), comps@, comp_req, fuel as nat),
            target == parse_parts(
                map@,
                *delim,
                parts@.subrange(i as int, parts@.len() as int),
                field_views(fields@),
                comps@,
                comp_req,
                fuel as nat,
            ),
        decreases parts.len() - i,
    {
        let ghost rest = parts@.subrange(i as int, parts@.len() as int);
        assert(rest[0] == parts@[i as int]);
        assert(rest.drop_first() =~= parts@.subrange(i + 1, parts@.len() as int));
        match &parts[i] {
            MessagePart::Field(f) => {
                match field_by_name(fields, f.name.as_str()) {
                    None => {
                        return Err(parse_error("Field '", f.name.as_str(), "' is not defined in <fields> section."));
                    },
                    Some(ddf) => {
                        let required = str_eq(f.required.as_str(), "Y") && match comp_req {
                            Some(b) => b,
                            None => true,
                        };
                        add_part_field(map, ddf, required);
                        if let Some(d) = *delim {
                            if d == 0 {
                                *delim = Some(ddf.tag);
                            }
                        }
                    },
                }
            },
            MessagePart::GroupDefinition(g) => {
                match field_by_name(fields, g.name.as_str()) {
                    None => {
                        return Err(parse_error("Field '", g.name.as_str(), "' is not defined in <fields> section."));
                    },
                    Some(ddf) => {
                        let required = str_eq(g.required.as_str(), "Y") && match comp_req {
                            Some(b) => b,
                            None => true,
                        };
                        add_part_field(map, ddf, required);
                        if let Some(d) = *delim {
                            if d == 0 {
                                *delim = Some(ddf.tag);
                            }
                        }
                        let mut grp_map = DDMap::new();
                        let mut grp_delim: Option<u32> = Some(0);
                        proof {
                            assert(decreases_to!(parts@ => parts@[i as int]));
                        }
                        let inner = parse_msg_el(&mut grp_map, &mut grp_delim, &g.fields, fields, comps, None, fuel);
                        match inner {
                            Err(e) => {
                                return Err(e);
                            },
                            Ok(()) => {
                                let grp = DDGroup {
                                    num_fld: ddf.tag,
                                    delim: match grp_delim {
                                        Some(d) => d,
                                        None => 0,
                                    },
                                    required,
                                    map: grp_map,
                                };
                                map.insert_group(ddf.tag, grp);
                            },
                        }
                    },
                }
            },
            MessagePart::Component(c) => {
                match component_by_name(comps, c.name.as_str()) {
                    None => {
                        return Err(parse_error("Component '", c.name.as_str(), "' is not defined in <components> section."));
                    },
                    Some(cparts) => {
                        if fuel == 0 {
                            return Err(parse_error("Component '", c.name.as_str(), "' is used within itself."));
                        }
                        let required = str_eq(c.required.as_str(), "Y");
                        return parse_msg_el(map, delim, cparts, fields, comps, Some(required), fuel - 1);
                    },
                }
            },
        }
        i = i + 1;
    }
    Ok(())
}

/// What a data dictionary holds.
pub struct DataDictionaryModel {
    pub check_fields_have_values: bool,
    pub check_fields_out_of_order: bool,
    pub check_user_defined_fields: bool,
    pub allow_unknown_message_fields: bool,
    pub version: Option<Seq<char>>,
    pub fields_by_tag: Seq<DDFieldModel>,
    pub fields_by_name: Seq<DDFieldModel>,
    pub messages: Seq<(Seq<char>, DDMapModel)>,
    pub header: DDMapModel,
    pub trailer: DDMapModel,
}

/// The fields, groups and messages of a FIX version, and which checks
/// validation makes.
pub struct DataDictionary {
    check_fields_have_values: bool,
    check_fields_out_of_order: bool,
    check_user_defined_fields: bool,
    allow_unknown_message_fields: bool,
    version: Option<String>,
    fields_by_tag: Vec<DDField>,
    fields_by_name: Vec<DDField>,
    messages: Vec<(String, DDMap)>,
    header: DDMap,
    trailer: DDMap,
}

pub open spec fn message_views(ms: Seq<(String, DDMap)>) -> Seq<(Seq<char>, DDMapModel)> {
    ms.map_values(|p: (String, DDMap)| (p.0@, p.1@))
}

impl View for DataDictionary {
    type V = DataDictionaryModel;

    closed spec fn view(&self) -> DataDictionaryModel {
        DataDictionaryModel {
            check_fields_have_values: self.check_fields_have_values,
            check_fields_out_of_order: self.check_fields_out_of_order,
            check_user_defined_fields: self.check_user_defined_fields,
            allow_unknown_message_fields: self.allow_unknown_message_fields,
            version: match self.version {
                Some(v) => Some(v@),
                None => None,
            },
            fields_by_tag: field_views(self.fields_by_tag@),
            fields_by_name: field_views(self.fields_by_name@),
            messages: message_views(self.messages@),
            header: self.header@,
            trailer: self.trailer@,
        }
    }
}

pub open spec fn unique_field_names(fs: Seq<DDFieldModel>) -> bool {
    forall|i: int, j: int| 0 <= i < j < fs.len() ==> fs[i].name != fs[j].name
}

pub open spec fn unique_message_keys(ms: Seq<(Seq<char>, DDMapModel)>) -> bool {
    forall|i: int, j: int| 0 <= i < j < ms.len() ==> ms[i].0 != ms[j].0
}

/// `fs` with `f` in place of the definition with its name, or with `f` added.
pub open spec fn put_named(fs: Seq<DDFieldModel>, f: DDFieldModel) -> Seq<DDFieldModel> {
    if exists|i: int| 0 <= i < fs.len() && fs[i].name == f.name {
        fs.update(choose|i: int| 0 <= i < fs.len() && fs[i].name == f.name, f)
    } else {
        fs.push(f)
    }
}

/// `ms` with `m` under `key`, in place of the one that was, or added.
pub open spec fn put_message(ms: Seq<(Seq<char>, DDMapModel)>, key: Seq<char>, m: DDMapModel) -> Seq<
    (Seq<char>, DDMapModel),
> {
    if exists|i: int| 0 <= i < ms.len() && ms[i].0 == key {
        ms.update(choose|i: int| 0 <= i < ms.len() && ms[i].0 == key, (key, m))
    } else {
        ms.push((key, m))
    }
}

/// The map of the message `key` among `ms`.
pub open spec fn find_message(ms: Seq<(Seq<char>, DDMapModel)>, key: Seq<char>) -> Option<DDMapModel> {
    if exists|i: int| 0 <= i < ms.len() && ms[i].0 == key {
        Some(ms[choose|i: int| 0 <= i < ms.len() && ms[i].0 == key].1)
    } else {
        None
    }
}

/// The definitions collected by tag, a later one in place of an earlier one.
pub open spec fn collect_by_tag(fs: Seq<DDFieldModel>) -> Seq<DDFieldModel>
    decreases fs.len(),
{
    if fs.len() == 0 {
        Seq::empty()
    } else {
        put_field(collect_by_tag(fs.drop_last()), fs.last())
    }
}

/// The definitions collected by name, a later one in place of an earlier one.
pub open spec fn collect_by_name(fs: Seq<DDFieldModel>) -> Seq<DDFieldModel>
    decreases fs.len(),
{
    if fs.len() == 0 {
        Seq::empty()
    } else {
        put_named(collect_by_name(fs.drop_last()), fs.last())
    }
}

/// The field definition that a field of a specification gives.
pub open spec fn spec_field(fd: FieldDefinition) -> DDFieldModel {
    DDFieldModel {
        tag: match crate::text::parse_unsigned(fd.number@, u32::MAX as nat) {
            Some(n) => n as u32,
            None => 0,
        },
        name: fd.name@,
        enums: keyed_enums(fd.values@.map_values(|v: FieldValue| (v.enum_values@, v.description@))),
        field_type: fd.field_type@,
        multiple: is_multiple_value_type(fd.field_type@),
    }
}

pub open spec fn spec_fields(spec: FixSpec) -> Seq<DDFieldModel> {
    spec.fields.values@.map_values(|fd: FieldDefinition| spec_field(fd))
}

/// Reading the parts of a message, a header or a trailer of `spec`.
pub open spec fn parse_spec_parts(spec: FixSpec, parts: Seq<MessagePart>) -> Result<
    (DDMapModel, Option<u32>),
    Seq<char>,
> {
    parse_parts(
        DDMapModel::empty(),
        None,
        parts,
        collect_by_name(spec_fields(spec)),
        spec.components.values@,
        None,
        spec.components.values@.len(),
    )
}

/// The map that a reading gives, where it succeeds.
pub open spec fn parsed(r: Result<(DDMapModel, Option<u32>), Seq<char>>) -> DDMapModel {
    match r {
        Ok(p) => p.0,
        Err(_) => DDMapModel::empty(),
    }
}

/// The messages of `spec` among `mds` collected by type, a later one in
/// place of an earlier one.
pub open spec fn collect_messages(spec: FixSpec, mds: Seq<MessageDefinition>) -> Seq<
    (Seq<char>, DDMapModel),
>
    decreases mds.len(),
{
    if mds.len() == 0 {
        Seq::empty()
    } else {
        put_message(
            collect_messages(spec, mds.drop_last()),
            mds.last().msgtype@,
            parsed(parse_spec_parts(spec, mds.last().fields@)),
        )
    }
}

/// Whether a data dictionary can be built from `spec`: each field number
/// is a `u32`, and each message, the header and the trailer read without
/// error.
pub open spec fn spec_builds(spec: FixSpec) -> bool {
    &&& forall|i: int|
        0 <= i < spec.fields.values@.len() ==> crate::text::parse_unsigned(
            (#[trigger] spec.fields.values@[i]).number@,
            u32::MAX as nat,
        ) is Some
    &&& parse_spec_parts(spec, spec.header.values@) is Ok
    &&& parse_spec_parts(spec, spec.trailer.values@) is Ok
    &&& forall|i: int|
        0 <= i < spec.messages.values@.len() ==> parse_spec_parts(
            spec,
            (#[trigger] spec.messages.values@[i]).fields@,
        ) is Ok
}

/// The data dictionary built from `spec`, with the four validation flags.
pub open spec fn built(
    check_fields_have_values: bool,
    check_fields_out_of_order: bool,
    check_user_defined_fields: bool,
    allow_unknown_message_fields: bool,
    spec: FixSpec,
) -> DataDictionaryModel {
    DataDictionaryModel {
        check_fields_have_values,
        check_fields_out_of_order,
        check_user_defined_fields,
        allow_unknown_message_fields,
        version: Some(spec.fix_type@ + spec.major@ + "."@ + spec.minor@),
        fields_by_tag: collect_by_tag(spec_fields(spec)),
        fields_by_name: collect_by_name(spec_fields(spec)),
        messages: collect_messages(spec, spec.messages.values@),
        header: parsed(parse_spec_parts(spec, spec.header.values@)),
        trailer: parsed(parse_spec_parts(spec, spec.trailer.values@)),
    }
}

/// Puts `f` in place of the definition with its tag, or adds it.
fn put_by_tag(fs: &mut Vec<DDField>, f: DDField)
    requires
        unique_field_tags(field_views(old(fs)@)),
    ensures
        field_views(final(fs)@) == put_field(field_views(old(fs)@), f@),
        unique_field_tags(field_views(final(fs)@)),
{
    let ghost before = field_views(fs@);
    let ghost fm = f@;
    let mut i: usize = 0;
    while i < fs.len()
        invariant
            i <= fs@.len(),
            before == field_views(fs@),
            fs@ == old(fs)@,
            unique_field_tags(before),
            fm == f@,
            forall|k: int| 0 <= k < i ==> before[k].tag != fm.tag,
        decreases fs.len() - i,
    {
        assert(before[i as int] == fs@[i as int]@);
        if fs[i].tag == f.tag {
            proof {
                assert forall|k: int| 0 <= k < before.len() && before[k].tag == fm.tag implies k == i by {
                    if k != i {
                        assert(before[k].tag != before[i as int].tag);
                    }
                }
            }
            fs.set(i, f);
            assert(field_views(fs@) =~= before.update(i as int, fm));
            return;
        }
        i = i + 1;
    }
    fs.push(f);
    assert(field_views(fs@) =~= before.push(fm));
}

/// Puts `f` in place of the definition with its name, or adds it.
fn put_by_name(fs: &mut Vec<DDField>, f: DDField)
    requires
        unique_field_names(field_views(old(fs)@)),
    ensures
        field_views(final(fs)@) == put_named(field_views(old(fs)@), f@),
        unique_field_names(field_views(final(fs)@)),
{
    let ghost before = field_views(fs@);
    let ghost fm = f@;
    let mut i: usize = 0;
    while i < fs.len()
        invariant
            i <= fs@.len(),
            before == field_views(fs@),
            fs@ == old(fs)@,
            unique_field_names(before),
            fm == f@,
            forall|k: int| 0 <= k < i ==> before[k].name != fm.name,
        decreases fs.len() - i,
    {
        assert(before[i as int] == fs@[i as int]@);
        if str_eq(fs[i].name.as_str(), f.name.as_str()) {
            proof {
                assert forall|k: int| 0 <= k < before.len() && before[k].name == fm.name implies k == i by {
                    if k != i {
                        assert(before[k].name != before[i as int].name);
                    }
                }
            }
            fs.set(i, f);
            assert(field_views(fs@) =~= before.update(i as int, fm));
            return;
        }
        i = i + 1;
    }
    fs.push(f);
    assert(field_views(fs@) =~= before.push(fm));
}

/// Puts `m` under `key`, in place of the map that was there, or adds it.
fn put_message_map(ms: &mut Vec<(String, DDMap)>, key: String, m: DDMap)
    requires
        unique_message_keys(message_views(old(ms)@)),
        forall|k: int| 0 <= k < old(ms)@.len() ==> (#[trigger] old(ms)@[k]).1.wf(),
        m.wf(),
    ensures
        message_views(final(ms)@) == put_message(message_views(old(ms)@), key@, m@),
        unique_message_keys(message_views(final(ms)@)),
        forall|k: int| 0 <= k < final(ms)@.len() ==> (#[trigger] final(ms)@[k]).1.wf(),
{
    let ghost before = message_views(ms@);
    let ghost entry = (key@, m@);
    let mut i: usize = 0;
    while i < ms.len()
        invariant
            i <= ms@.len(),
            before == message_views(ms@),
            ms@ == old(ms)@,
            unique_message_keys(before),
            entry == (key@, m@),
            m.wf(),
            forall|k: int| 0 <= k < ms@.len() ==> (#[trigger] ms@[k]).1.wf(),
            forall|k: int| 0 <= k < i ==> before[k].0 != key@,
        decreases ms.len() - i,
    {
        assert(before[i as int] == (ms@[i as int].0@, ms@[i as int].1@));
        if str_eq(ms[i].0.as_str(), key.as_str()) {
            proof {
                assert forall|k: int| 0 <= k < before.len() && before[k].0 == key@ implies k == i by {
                    if k != i {
                        assert(before[k].0 != before[i as int].0);
                    }
                }
            }
            ms.set(i, (key, m));
            assert(message_views(ms@) =~= before.update(i as int, entry));
            assert forall|k: int| 0 <= k < ms@.len() implies (#[trigger] ms@[k]).1.wf() by {
                if k != i {
                    assert(ms@[k] == old(ms)@[k]);
                }
            }
            return;
        }
        i = i + 1;
    }
    ms.push((key, m));
    assert(message_views(ms@) =~= before.push(entry));
    assert forall|k: int| 0 <= k < ms@.len() implies (#[trigger] ms@[k]).1.wf() by {
        if k < old(ms)@.len() {
            assert(ms@[k] == old(ms)@[k]);
        }
    }
}

/// The enumerated values of a field of a specification, with their descriptions.
fn spec_enums(values: &Vec<FieldValue>) -> (r: Vec<(String, String)>)
    ensures
        r@.map_values(|e: (String, String)| (e.0@, e.1@)) == values@.map_values(
            |v: FieldValue| (v.enum_values@, v.description@),
        ),
{
    let mut r: Vec<(String, String)> = Vec::new();
    let mut i: usize = 0;
    while i < values.len()
        invariant
            i <= values@.len(),
            r@.len() == i,
            forall|k: int|
                0 <= k < i ==> (#[trigger] r@[k]).0@ == values@[k].enum_values@ && r@[k].1@
                    == values@[k].description@,
        decreases values.len() - i,
    {
        r.push((values[i].enum_values.clone(), values[i].description.clone()));
        i = i + 1;
    }
    assert(r@.map_values(|e: (String, String)| (e.0@, e.1@)) =~= values@.map_values(
        |v: FieldValue| (v.enum_values@, v.description@),
    ));
    r
}

/// The field definitions of `spec`, collected by tag and by name.
fn field_lists(spec: &FixSpec) -> (r: (Vec<DDField>, Vec<DDField>))
    ensures
        field_views(r.0@) == collect_by_tag(spec_fields(*spec)),
        field_views(r.1@) == collect_by_name(spec_fields(*spec)),
        unique_field_tags(field_views(r.0@)),
        unique_field_names(field_views(r.1@)),
{
    // The field definitions, in the order of the specification.
    let mut dd_fields: Vec<DDField> = Vec::new();
    let mut i: usize = 0;
    while i < spec.fields.values.len()
        invariant
            i <= spec.fields.values@.len(),
            field_views(dd_fields@) == spec_fields(*spec).subrange(0, i as int),
        decreases spec.fields.values.len() - i,
    {
        let fd = &spec.fields.values[i];
        let digits = str_chars(fd.number.as_str());
        let tag: u32 = match parse_unsigned_chars(digits.as_slice(), 0xffff_ffffu128) {
            Some(v) => v as u32,
            None => 0,
        };
        let enums = spec_enums(&fd.values);
        let field = DDField::new(tag, fd.name.clone(), enums, fd.field_type.clone());
        assert(field@ == spec_field(spec.fields.values@[i as int]));
        let ghost before = dd_fields@;
        dd_fields.push(field);
        assert(dd_fields@ == before.push(field));
        assert(field_views(dd_fields@) =~= field_views(before).push(field@));
        assert(spec_fields(*spec)[i as int] == spec_field(spec.fields.values@[i as int]));
        assert(spec_fields(*spec).subrange(0, i + 1) =~= spec_fields(*spec).subrange(0, i as int).push(spec_fields(*spec)[i as int]));
        i = i + 1;
    }
    assert(spec_fields(*spec).subrange(0, i as int) =~= spec_fields(*spec));
    // Collected by tag and by name.
    let mut fields_by_tag: Vec<DDField> = Vec::new();
    let mut fields_by_name: Vec<DDField> = Vec::new();
    let mut j: usize = 0;
    assert(field_views(fields_by_tag@) =~= Seq::<DDFieldModel>::empty());
    while j < dd_fields.len()
        invariant
            j <= dd_fields@.len(),
            field_views(dd_fields@) == spec_fields(*spec),
            field_views(fields_by_tag@) == collect_by_tag(spec_fields(*spec).subrange(0, j as int)),
            field_views(fields_by_name@) == collect_by_name(spec_fields(*spec).subrange(0, j as int)),
            unique_field_tags(field_views(fields_by_tag@)),
            unique_field_names(field_views(fields_by_name@)),
        decreases dd_fields.len() - j,
    {
        assert(spec_fields(*spec).subrange(0, j + 1).drop_last() =~= spec_fields(*spec).subrange(0, j as int));
        put_by_tag(&mut fields_by_tag, dd_fields[j].duplicate());
        put_by_name(&mut fields_by_name, dd_fields[j].duplicate());
        j = j + 1;
    }
    assert(spec_fields(*spec).subrange(0, j as int) =~= spec_fields(*spec));
    (fields_by_tag, fields_by_name)
}

impl Default for DataDictionary {
    /// A dictionary that defines nothing, with no check switched on and no
    /// version.
    fn default() -> (r: Self)
        ensures
            r.wf(),
            r@ == (DataDictionaryModel {
                check_fields_have_values: false,
                check_fields_out_of_order: false,
                check_user_defined_fields: false,
                allow_unknown_message_fields: false,
                version: None,
                fields_by_tag: Seq::empty(),
                fields_by_name: Seq::empty(),
                messages: Seq::empty(),
                header: DDMapModel::empty(),
                trailer: DDMapModel::empty(),
            }),
    {
        let r = DataDictionary {
            check_fields_have_values: false,
            check_fields_out_of_order: false,
            check_user_defined_fields: false,
            allow_unknown_message_fields: false,
            version: None,
            fields_by_tag: Vec::new(),
            fields_by_name: Vec::new(),
            messages: Vec::new(),
            header: DDMap::new(),
            trailer: DDMap::new(),
        };
        assert(field_views(r.fields_by_tag@) =~= Seq::<DDFieldModel>::empty());
        assert(field_views(r.fields_by_name@) =~= Seq::<DDFieldModel>::empty());
        assert(message_views(r.messages@) =~= Seq::<(Seq<char>, DDMapModel)>::empty());
        r
    }
}

impl DataDictionary {
    /// Well-formedness: its maps are well formed, and no tag, name or
    /// message type occurs twice among the definitions keyed by it.
    pub closed spec fn wf(self) -> bool {
        &&& self.header.wf()
        &&& self.trailer.wf()
        &&& forall|k: int| 0 <= k < self.messages@.len() ==> (#[trigger] self.messages@[k]).1.wf()
        &&& unique_field_tags(self@.fields_by_tag)
        &&& unique_field_names(self@.fields_by_name)
        &&& unique_message_keys(self@.messages)
    }

    /// Builds the data dictionary of `spec`, which must build (a field
    /// number that is no `u32`, a part naming an undefined field or
    /// component, or a component that uses itself make it panic).
    pub fn new(
        check_fields_have_values: bool,
        check_fields_out_of_order: bool,
        check_user_defined_fields: bool,
        allow_unknown_message_fields: bool,
        spec: FixSpec,
    ) -> (r: Result<DataDictionary, SpecError>)
        requires
            spec_builds(spec),
        ensures
            r matches Ok(dd) && dd.wf() && dd@ == built(
                check_fields_have_values,
                check_fields_out_of_order,
                check_user_defined_fields,
                allow_unknown_message_fields,
                spec,
            ),
    {
        let (fields_by_tag, fields_by_name) = field_lists(&spec);
        // The version: type, major, a dot, minor.
        let mut v: Vec<char> = Vec::new();
        push_str_chars(&mut v, spec.fix_type.as_str());
        push_str_chars(&mut v, spec.major.as_str());
        push_str_chars(&mut v, ".");
        push_str_chars(&mut v, spec.minor.as_str());
        let version = string_from_chars(v.as_slice());
        // The messages, the header and the trailer.
        let fuel = spec.components.values.len();
        let mut messages: Vec<(String, DDMap)> = Vec::new();
        let mut k: usize = 0;
        assert(message_views(messages@) =~= Seq::<(Seq<char>, DDMapModel)>::empty());
        while k < spec.messages.values.len()
            invariant
                spec_builds(spec),
                fuel == spec.components.values@.len(),
                field_views(fields_by_name@) == collect_by_name(spec_fields(spec)),
                k <= spec.messages.values@.len(),
                message_views(messages@) == collect_messages(spec, spec.messages.values@.subrange(0, k as int)),
                unique_message_keys(message_views(messages@)),
                forall|x: int| 0 <= x < messages@.len() ==> (#[trigger] messages@[x]).1.wf(),
            decreases spec.messages.values.len() - k,
        {
            let md = &spec.messages.values[k];
            assert(spec.messages.values@.subrange(0, k + 1).drop_last() =~= spec.messages.values@.subrange(0, k as int));
            assert(parse_spec_parts(spec, spec.messages.values@[k as int].fields@) is Ok);
            let mut map = DDMap::new();
            let mut delim: Option<u32> = None;
            let _ = parse_msg_el(&mut map, &mut delim, &md.fields, &fields_by_name, &spec.components.values, None, fuel);
            put_message_map(&mut messages, md.msgtype.clone(), map);
            k = k + 1;
        }
        assert(spec.messages.values@.subrange(0, k as int) =~= spec.messages.values@);
        let mut header = DDMap::new();
        let mut header_delim: Option<u32> = None;
        let _ = parse_msg_el(&mut header, &mut header_delim, &spec.header.values, &fields_by_name, &spec.components.values, None, fuel);
        let mut trailer = DDMap::new();
        let mut trailer_delim: Option<u32> = None;
        let _ = parse_msg_el(&mut trailer, &mut trailer_delim, &spec.trailer.values, &fields_by_name, &spec.components.values, None, fuel);
        let dd = DataDictionary {
            check_fields_have_values,
            check_fields_out_of_order,
            check_user_defined_fields,
            allow_unknown_message_fields,
            version: Some(version),
            fields_by_tag,
            fields_by_name,
            messages,
            header,
            trailer,
        };
        Ok(dd)
    }
}

impl DataDictionary {
    /// Whether a data dictionary can be built from `spec`.
    pub fn can_build(spec: &FixSpec) -> (r: bool)
        ensures
            r == spec_builds(*spec),
    {
        let mut i: usize = 0;
        while i < spec.fields.values.len()
            invariant
                i <= spec.fields.values@.len(),
                forall|k: int|
                    0 <= k < i ==> crate::text::parse_unsigned(
                        (#[trigger] spec.fields.values@[k]).number@,
                        u32::MAX as nat,
                    ) is Some,
            decreases spec.fields.values.len() - i,
        {
            let digits = str_chars(spec.fields.values[i].number.as_str());
            if parse_unsigned_chars(digits.as_slice(), 0xffff_ffffu128).is_none() {
                return false;
            }
            i = i + 1;
        }
        let (_, fields_by_name) = field_lists(spec);
        let fuel = spec.components.values.len();
        let mut header = DDMap::new();
        let mut header_delim: Option<u32> = None;
        if parse_msg_el(&mut header, &mut header_delim, &spec.header.values, &fields_by_name, &spec.components.values, None, fuel).is_err() {
            return false;
        }
        let mut trailer = DDMap::new();
        let mut trailer_delim: Option<u32> = None;
        if parse_msg_el(&mut trailer, &mut trailer_delim, &spec.trailer.values, &fields_by_name, &spec.components.values, None, fuel).is_err() {
            return false;
        }
        let mut k: usize = 0;
        while k < spec.messages.values.len()
            invariant
                k <= spec.messages.values@.len(),
                fuel == spec.components.values@.len(),
                field_views(fields_by_name@) == collect_by_name(spec_fields(*spec)),
                forall|x: int|
                    0 <= x < k ==> parse_spec_parts(*spec, (#[trigger] spec.messages.values@[x]).fields@) is Ok,
            decreases spec.messages.values.len() - k,
        {
            let mut map = DDMap::new();
            let mut delim: Option<u32> = None;
            if parse_msg_el(&mut map, &mut delim, &spec.messages.values[k].fields, &fields_by_name, &spec.components.values, None, fuel).is_err() {
                return false;
            }
            k = k + 1;
        }
        true
    }

    /// The version: the specification's type and major version, a dot and its minor version.
    pub fn version(&self) -> (r: Option<&String>)
        ensures
            match r {
                Some(v) => self@.version == Some(v@),
                None => self@.version is None,
            },
    {
        self.version.as_ref()
    }

    pub fn header(&self) -> (r: &DDMap)
        requires
            self.wf(),
        ensures
            r@ == self@.header,
            r.wf(),
    {
        &self.header
    }

    pub fn trailer(&self) -> (r: &DDMap)
        requires
            self.wf(),
        ensures
            r@ == self@.trailer,
            r.wf(),
    {
        &self.trailer
    }

    /// Whether the header defines the field `tag`.
    pub fn is_header_field(&self, tag: Tag) -> (r: bool)
        requires
            self.wf(),
        ensures
            r == find_field(self@.header.fields, tag) is Some,
    {
        self.header.is_field(tag)
    }

    /// Whether the trailer defines the field `tag`.
    pub fn is_trailer_field(&self, tag: Tag) -> (r: bool)
        requires
            self.wf(),
        ensures
            r == find_field(self@.trailer.fields, tag) is Some,
    {
        self.trailer.is_field(tag)
    }

    /// Whether fields must stand in header, body, trailer order.
    fn check_fields_out_of_order(&self) -> (r: bool)
        ensures
            r == self@.check_fields_out_of_order,
    {
        self.check_fields_out_of_order
    }

    /// Where the map of the message type `msg_type` stands, if it is defined.
    fn message_index(&self, msg_type: &str) -> (r: Option<usize>)
        requires
            self.wf(),
        ensures
            r matches Some(i) ==> i < self@.messages.len() && self@.messages[i as int].0 == msg_type@
                && find_message(self@.messages, msg_type@) == Some(self@.messages[i as int].1),
            r is None ==> find_message(self@.messages, msg_type@) is None,
    {
        let mut i: usize = 0;
        while i < self.messages.len()
            invariant
                self.wf(),
                i <= self.messages@.len(),
                forall|k: int| 0 <= k < i ==> self@.messages[k].0 != msg_type@,
            decreases self.messages.len() - i,
        {
            assert(self@.messages[i as int].0 == self.messages@[i as int].0@);
            if str_eq(self.messages[i].0.as_str(), msg_type) {
                proof {
                    let k = choose|k: int| 0 <= k < self@.messages.len() && self@.messages[k].0 == msg_type@;
                    if k != i {
                        assert(self@.messages[k].0 != self@.messages[i as int].0);
                    }
                }
                return Some(i);
            }
            i = i + 1;
        }
        None
    }

    /// The map of the message type `msg_type`.
    pub fn get_map_for_message(&self, msg_type: &str) -> (r: Option<&DDMap>)
        requires
            self.wf(),
        ensures
            match r {
                Some(m) => find_message(self@.messages, msg_type@) == Some(m@) && m.wf(),
                None => find_message(self@.messages, msg_type@) is None,
            },
    {
        match self.message_index(msg_type) {
            Some(i) => {
                assert(self@.messages[i as int].1 == self.messages@[i as int].1@);
                Some(&self.messages[i].1)
            },
            None => None,
        }
    }

    /// The definition of the field named `field_name`.
    pub fn get_field_by_name(&self, field_name: &str) -> (r: Option<&DDField>)
        requires
            self.wf(),
        ensures
            match r {
                Some(f) => field_named(self@.fields_by_name, field_name@) == Some(f@),
                None => field_named(self@.fields_by_name, field_name@) is None,
            },
    {
        field_by_name(&self.fields_by_name, field_name)
    }

    /// The definition of the field `tag`.
    fn field_by_tag(&self, tag: Tag) -> (r: Option<&DDField>)
        requires
            self.wf(),
        ensures
            match r {
                Some(f) => find_field(self@.fields_by_tag, tag) == Some(f@),
                None => find_field(self@.fields_by_tag, tag) is None,
            },
    {
        let mut i: usize = 0;
        while i < self.fields_by_tag.len()
            invariant
                self.wf(),
                i <= self.fields_by_tag@.len(),
                forall|k: int| 0 <= k < i ==> self@.fields_by_tag[k].tag != tag,
            decreases self.fields_by_tag.len() - i,
        {
            assert(self@.fields_by_tag[i as int] == self.fields_by_tag@[i as int]@);
            if self.fields_by_tag[i].tag == tag {
                proof {
                    let k = choose|k: int| 0 <= k < self@.fields_by_tag.len() && self@.fields_by_tag[k].tag == tag;
                    if k != i {
                        assert(self@.fields_by_tag[k].tag != self@.fields_by_tag[i as int].tag);
                    }
                }
                return Some(&self.fields_by_tag[i]);
            }
            i = i + 1;
        }
        None
    }

    /// Whether the field `tag` holds the length of another field: its type
    /// is `LENGTH` and it is not BodyLength.
    pub(crate) fn is_length_field(&self, tag: u32) -> (r: bool)
        requires
            self.wf(),
        ensures
            r == match find_field(self@.fields_by_tag, tag) {
                Some(f) => f.field_type == "LENGTH"@ && f.name != "BodyLength"@,
                None => false,
            },
    {
        match self.field_by_tag(tag) {
            Some(field) => str_eq(field.field_type.as_str(), "LENGTH") && !str_eq(field.name.as_str(), "BodyLength"),
            None => false,
        }
    }

    /// Whether the message type `msg_type` is defined.
    fn check_msg_type(&self, msg_type: &str) -> (r: Result<(), MessageValidationError>)
        requires
            self.wf(),
        ensures
            find_message(self@.messages, msg_type@) is Some ==> r is Ok,
            find_message(self@.messages, msg_type@) is None ==> (r matches Err(
                MessageValidationError::InvalidMessageType(t),
            ) && t@ == msg_type@),
    {
        if self.message_index(msg_type).is_some() {
            Ok(())
        } else {
            Err(MessageValidationError::InvalidMessageType(msg_type.to_owned()))
        }
    }
}

fn copy_dd_fields(fs: &Vec<DDField>) -> (r: Vec<DDField>)
    ensures
        field_views(r@) == field_views(fs@),
{
    let mut r: Vec<DDField> = Vec::new();
    let mut i: usize = 0;
    while i < fs.len()
        invariant
            i <= fs@.len(),
            r@.len() == i,
            forall|k: int| 0 <= k < i ==> (#[trigger] r@[k])@ == fs@[k]@,
        decreases fs.len() - i,
    {
        r.push(fs[i].duplicate());
        i = i + 1;
    }
    assert(field_views(r@) =~= field_views(fs@));
    r
}

impl DDMap {
    /// A copy of the map.
    pub fn duplicate(&self) -> (r: Self)
        requires
            self.wf(),
        ensures
            r@ == self@,
            r.wf(),
            r.depth() == self.depth(),
        decreases self.depth(), 0nat,
    {
        let fields = copy_dd_fields(&self.fields);
        let required_fields = crate::field_map::copy_tags(&self.required_fields);
        let mut groups: Vec<(Tag, DDGroup)> = Vec::new();
        let mut i: usize = 0;
        while i < self.groups.len()
            invariant
                self.wf(),
                i <= self.groups@.len(),
                groups@.len() == i,
                forall|k: int|
                    0 <= k < i ==> (#[trigger] groups@[k]).0 == self.groups@[k].0 && groups@[k].1@
                        == self.groups@[k].1@ && groups@[k].1.map.wf() && groups@[k].1.map.depth@
                        == self.groups@[k].1.map.depth@,
            decreases self.groups.len() - i,
        {
            let g = self.groups[i].1.duplicate();
            groups.push((self.groups[i].0, g));
            i = i + 1;
        }
        let r = DDMap {
            fields,
            groups,
            required_fields,
            depth: Ghost(self.depth@),
            group_models: Ghost(self.group_models@),
        };
        assert(r@.fields =~= self@.fields);
        r
    }
}

impl DDGroup {
    /// A copy of the group definition.
    pub fn duplicate(&self) -> (r: Self)
        requires
            self.entry().wf(),
        ensures
            r@ == self@,
            r.entry().wf(),
            r.entry().depth() == self.entry().depth(),
        decreases self.entry().depth(), 1nat,
    {
        DDGroup { num_fld: self.num_fld, delim: self.delim, required: self.required, map: self.map.duplicate() }
    }
}

impl DataDictionary {
    /// A copy of the data dictionary.
    pub fn duplicate(&self) -> (r: Self)
        requires
            self.wf(),
        ensures
            r@ == self@,
            r.wf(),
    {
        let mut messages: Vec<(String, DDMap)> = Vec::new();
        let mut i: usize = 0;
        while i < self.messages.len()
            invariant
                self.wf(),
                i <= self.messages@.len(),
                messages@.len() == i,
                forall|k: int|
                    0 <= k < i ==> (#[trigger] messages@[k]).0@ == self.messages@[k].0@ && messages@[k].1@
                        == self.messages@[k].1@,
                forall|k: int| 0 <= k < messages@.len() ==> (#[trigger] messages@[k]).1.wf(),
            decreases self.messages.len() - i,
        {
            let m = self.messages[i].1.duplicate();
            messages.push((self.messages[i].0.clone(), m));
            i = i + 1;
        }
        assert(message_views(messages@) =~= message_views(self.messages@));
        let version = match &self.version {
            Some(v) => Some(v.clone()),
            None => None,
        };
        let r = DataDictionary {
            check_fields_have_values: self.check_fields_have_values,
            check_fields_out_of_order: self.check_fields_out_of_order,
            check_user_defined_fields: self.check_user_defined_fields,
            allow_unknown_message_fields: self.allow_unknown_message_fields,
            version,
            fields_by_tag: copy_dd_fields(&self.fields_by_tag),
            fields_by_name: copy_dd_fields(&self.fields_by_name),
            messages,
            header: self.header.duplicate(),
            trailer: self.trailer.duplicate(),
        };
        r
    }
}

/// What an error of validation holds.
pub enum ValidationErrorModel {
    UnsupportedVersion(Seq<char>),
    RepeatedTag(u32),
    NoTagValue(u32),
    InvalidMessageType(Seq<char>),
    MissingGroupDefinition,
    RequiredTagMissing(u32),
    InvalidTagNumber(u32),
    IncorrectTagValue(u32),
    TagNotDefinedForMessage(u32, Seq<char>),
    RepeatingGroupCountMismatch(u32),
    InvalidStructure(u32),
    FieldMapError(FieldMapError),
    DictionaryParseException(Seq<char>),
}

impl View for MessageValidationError {
    type V = ValidationErrorModel;

    open spec fn view(&self) -> ValidationErrorModel {
        match self {
            MessageValidationError::UnsupportedVersion(s) => ValidationErrorModel::UnsupportedVersion(s@),
            MessageValidationError::RepeatedTag(t) => ValidationErrorModel::RepeatedTag(*t),
            MessageValidationError::NoTagValue(t) => ValidationErrorModel::NoTagValue(*t),
            MessageValidationError::InvalidMessageType(s) => ValidationErrorModel::InvalidMessageType(s@),
            MessageValidationError::MissingGroupDefinition() => ValidationErrorModel::MissingGroupDefinition,
            MessageValidationError::RequiredTagMissing(t) => ValidationErrorModel::RequiredTagMissing(*t),
            MessageValidationError::InvalidTagNumber(t) => ValidationErrorModel::InvalidTagNumber(*t),
            MessageValidationError::IncorrectTagValue(t) => ValidationErrorModel::IncorrectTagValue(*t),
            MessageValidationError::TagNotDefinedForMessage(t, s) => ValidationErrorModel::TagNotDefinedForMessage(*t, s@),
            MessageValidationError::RepeatingGroupCountMismatch(t) => ValidationErrorModel::RepeatingGroupCountMismatch(*t),
            MessageValidationError::InvalidStructure(t) => ValidationErrorModel::InvalidStructure(*t),
            MessageValidationError::FieldMapError(e) => ValidationErrorModel::FieldMapError(*e),
            MessageValidationError::DictionaryParseException(s) => ValidationErrorModel::DictionaryParseException(s@),
        }
    }
}

/// The outcome of a check: `Err(None)` stands where the check panics.
pub type CheckResult = Result<(), Option<ValidationErrorModel>>;

pub open spec fn fail(e: ValidationErrorModel) -> CheckResult {
    Err(Some(e))
}

/// The first of two checks that fails.
pub open spec fn then_check(a: CheckResult, b: CheckResult) -> CheckResult {
    match a {
        Err(x) => Err(x),
        Ok(_) => b,
    }
}

/// Whether each part of `s` between spaces, from `start` on, is an
/// enumerated value of `enums`.
pub open spec fn parts_from(enums: Seq<(Seq<char>, Seq<char>)>, s: Seq<char>, start: nat) -> bool
    decreases s.len() + 1 - start,
{
    if start > s.len() {
        true
    } else {
        match crate::message::find_char_from(s, start, ' ') {
            None => has_enum(enums, s.subrange(start as int, s.len() as int)),
            Some(i) => if start <= i < s.len() {
                has_enum(enums, s.subrange(start as int, i as int)) && parts_from(enums, s, i + 1)
            } else {
                false
            },
        }
    }
}

/// Whether each part of `s` between spaces is an enumerated value of `enums`.
pub open spec fn all_parts_enums(enums: Seq<(Seq<char>, Seq<char>)>, s: Seq<char>) -> bool {
    parts_from(enums, s, 0)
}

/// A map with no field met twice while it was read.
pub open spec fn no_repeated_check(m: MapModel) -> CheckResult {
    if m.repeated.len() > 0 {
        fail(ValidationErrorModel::RepeatedTag(m.repeated[0].0))
    } else {
        Ok(())
    }
}

pub open spec fn has_value_check(dd: DataDictionaryModel, tag: u32, value: Seq<char>) -> CheckResult {
    if dd.check_fields_have_values && value.len() == 0 {
        fail(ValidationErrorModel::NoTagValue(tag))
    } else {
        Ok(())
    }
}

pub open spec fn valid_tag_number_check(dd: DataDictionaryModel, tag: u32) -> CheckResult {
    if !dd.allow_unknown_message_fields && find_field(dd.fields_by_tag, tag) is None {
        fail(ValidationErrorModel::InvalidTagNumber(tag))
    } else {
        Ok(())
    }
}

/// A field with enumerated values holds one of them, or a list of them
/// separated by spaces where its values are lists.
pub open spec fn value_check(dd: DataDictionaryModel, tag: u32, value: Seq<char>) -> CheckResult {
    match find_field(dd.fields_by_tag, tag) {
        Some(fld) => if fld.enums.len() > 0 {
            if fld.multiple {
                if all_parts_enums(fld.enums, value) {
                    Ok(())
                } else {
                    fail(ValidationErrorModel::IncorrectTagValue(tag))
                }
            } else if !has_enum(fld.enums, value) {
                fail(ValidationErrorModel::IncorrectTagValue(tag))
            } else {
                Ok(())
            }
        } else {
            Ok(())
        },
        None => Ok(()),
    }
}

/// Where unknown message fields are allowed, a field must be one of the
/// message's; else nothing is checked.
pub open spec fn in_message_check(dd: DataDictionaryModel, tag: u32, msg_type: Seq<char>) -> CheckResult {
    if !dd.allow_unknown_message_fields {
        Ok(())
    } else if (match find_message(dd.messages, msg_type) {
        Some(m) => find_field(m.fields, tag) is Some,
        None => false,
    }) {
        Ok(())
    } else {
        fail(ValidationErrorModel::TagNotDefinedForMessage(tag, msg_type))
    }
}

pub open spec fn in_group_check(gd: DDGroupModel, tag: u32, msg_type: Seq<char>) -> CheckResult {
    if find_field(gd.map.fields, tag) is Some {
        Ok(())
    } else {
        fail(ValidationErrorModel::TagNotDefinedForMessage(tag, msg_type))
    }
}

/// Whether the message `msg_type` has a group counted by `tag`.
pub open spec fn is_group_of(dd: DataDictionaryModel, msg_type: Seq<char>, tag: u32) -> bool {
    match find_message(dd.messages, msg_type) {
        Some(m) => find_group(m.groups, tag) is Some,
        None => false,
    }
}

/// A group counter of the message must hold the number of its entries in `m`.
pub open spec fn group_count_check(dd: DataDictionaryModel, tag: u32, m: MapModel, msg_type: Seq<char>) -> CheckResult {
    if is_group_of(dd, msg_type, tag) {
        match crate::message::int_field(m, tag) {
            Err(e) => fail(ValidationErrorModel::FieldMapError(e)),
            Ok(n) => if n as nat != entries_with(m.groups, tag).len() {
                fail(ValidationErrorModel::RepeatingGroupCountMismatch(tag))
            } else {
                Ok(())
            },
        }
    } else {
        Ok(())
    }
}

pub open spec fn should_check_tag(dd: DataDictionaryModel, tag: u32) -> bool {
    !(!dd.check_user_defined_fields && tag >= crate::fields::limits::USER_MIN)
}

/// The checks of a field of a message, a header or a trailer.
pub open spec fn message_field_checks(
    dd: DataDictionaryModel,
    tag: u32,
    value: Seq<char>,
    m: MapModel,
    msg_type: Seq<char>,
) -> CheckResult {
    then_check(
        has_value_check(dd, tag, value),
        if (match dd.version {
            Some(v) => v.len() > 0,
            None => false,
        }) && should_check_tag(dd, tag) {
            then_check(
                valid_tag_number_check(dd, tag),
                then_check(
                    value_check(dd, tag, value),
                    if !crate::message::header_tag(tag, Some(dd)) && !crate::message::trailer_tag(tag, Some(dd)) {
                        then_check(in_message_check(dd, tag, msg_type), group_count_check(dd, tag, m, msg_type))
                    } else {
                        Ok(())
                    },
                ),
            )
        } else {
            Ok(())
        },
    )
}

/// The checks of a field of a group entry: made only where the version is empty.
pub open spec fn group_field_checks(
    dd: DataDictionaryModel,
    tag: u32,
    value: Seq<char>,
    m: MapModel,
    gd: DDGroupModel,
    msg_type: Seq<char>,
) -> CheckResult {
    then_check(
        has_value_check(dd, tag, value),
        if (match dd.version {
            Some(v) => v.len() == 0,
            None => false,
        }) && should_check_tag(dd, tag) {
            then_check(
                valid_tag_number_check(dd, tag),
                then_check(
                    value_check(dd, tag, value),
                    then_check(in_group_check(gd, tag, msg_type), group_count_check(dd, tag, m, msg_type)),
                ),
            )
        } else {
            Ok(())
        },
    )
}

/// The checks of the fields `fs` of `m` in order, each field after `last`;
/// `gd` is the group definition where `m` is a group entry.
pub open spec fn fields_checks(
    dd: DataDictionaryModel,
    fs: Seq<(u32, Seq<char>)>,
    m: MapModel,
    gd: Option<DDGroupModel>,
    msg_type: Seq<char>,
    last: u32,
) -> CheckResult
    decreases fs.len(),
{
    if fs.len() == 0 {
        Ok(())
    } else if last != 0 && fs[0].0 == last {
        fail(ValidationErrorModel::RepeatedTag(fs[0].0))
    } else {
        then_check(
            match gd {
                None => message_field_checks(dd, fs[0].0, fs[0].1, m, msg_type),
                Some(g) => group_field_checks(dd, fs[0].0, fs[0].1, m, g, msg_type),
            },
            fields_checks(dd, fs.drop_first(), m, gd, msg_type, fs[0].0),
        )
    }
}

/// The checks of a group entry against its definition, where it has one.
pub open spec fn group_checks(dd: DataDictionaryModel, e: GroupModel, gd: Option<DDGroupModel>, msg_type: Seq<char>) -> CheckResult
    decreases e, 2nat, 0nat,
{
    match gd {
        None => fail(ValidationErrorModel::MissingGroupDefinition),
        Some(g) => then_check(
            no_repeated_check(e.map),
            then_check(
                fields_checks(dd, e.map.fields, e.map, gd, msg_type, 0),
                nested_tags_checks(dd, e, counter_tags(e.map.groups), g, msg_type),
            ),
        ),
    }
}

/// The checks of the entries of `e` counted by each of `ts`, in order.
pub open spec fn nested_tags_checks(
    dd: DataDictionaryModel,
    e: GroupModel,
    ts: Seq<u32>,
    g: DDGroupModel,
    msg_type: Seq<char>,
) -> CheckResult
    decreases e, 1nat, ts.len(),
{
    if ts.len() == 0 {
        Ok(())
    } else {
        then_check(
            nested_entries_checks(dd, e, entries_with(e.map.groups, ts[0]), find_group(g.map.groups, ts[0]), msg_type),
            nested_tags_checks(dd, e, ts.drop_first(), g, msg_type),
        )
    }
}

/// The checks of the entries `es` of `e`, in order, against `gd`.
pub open spec fn nested_entries_checks(
    dd: DataDictionaryModel,
    e: GroupModel,
    es: Seq<GroupModel>,
    gd: Option<DDGroupModel>,
    msg_type: Seq<char>,
) -> CheckResult
    decreases e, 0nat, es.len(),
{
    if es.len() == 0 {
        Ok(())
    } else if exists|j: int| 0 <= j < e.map.groups.len() && e.map.groups[j] == es[0] {
        proof {
            let j = choose|j: int| 0 <= j < e.map.groups.len() && e.map.groups[j] == es[0];
            assert(decreases_to!(e => e.map.groups[j]));
        }
        then_check(group_checks(dd, es[0], gd, msg_type), nested_entries_checks(dd, e, es.drop_first(), gd, msg_type))
    } else {
        Ok(())
    }
}

/// The checks of the entries counted by each of `ts` of the map `m` of a
/// message, against the message's group definitions.
pub open spec fn top_tags_checks(
    dd: DataDictionaryModel,
    m: MapModel,
    ts: Seq<u32>,
    msg_type: Seq<char>,
) -> CheckResult
    decreases ts.len(),
{
    if ts.len() == 0 {
        Ok(())
    } else {
        let es = entries_with(m.groups, ts[0]);
        then_check(
            if es.len() == 0 {
                Ok(())
            } else {
                match find_message(dd.messages, msg_type) {
                    None => Err(None),
                    Some(mm) => top_entries_checks(dd, es, find_group(mm.groups, ts[0]), msg_type),
                }
            },
            top_tags_checks(dd, m, ts.drop_first(), msg_type),
        )
    }
}

pub open spec fn top_entries_checks(dd: DataDictionaryModel, es: Seq<GroupModel>, gd: Option<DDGroupModel>, msg_type: Seq<char>) -> CheckResult
    decreases es.len(),
{
    if es.len() == 0 {
        Ok(())
    } else {
        then_check(group_checks(dd, es[0], gd, msg_type), top_entries_checks(dd, es.drop_first(), gd, msg_type))
    }
}

/// The checks of a header, a body or a trailer against the message `msg_type`.
pub open spec fn map_checks(dd: DataDictionaryModel, m: MapModel, msg_type: Seq<char>) -> CheckResult {
    then_check(
        no_repeated_check(m),
        then_check(
            fields_checks(dd, m.fields, m, None, msg_type, 0),
            top_tags_checks(dd, m, counter_tags(m.groups), msg_type),
        ),
    )
}

/// The required fields `req` of a dictionary's map are set in `m`.
pub open spec fn required_checks(req: Seq<u32>, m: MapModel) -> CheckResult
    decreases req.len(),
{
    if req.len() == 0 {
        Ok(())
    } else if lookup(m.fields, req[0]) is None {
        fail(ValidationErrorModel::RequiredTagMissing(req[0]))
    } else {
        required_checks(req.drop_first(), m)
    }
}

proof fn lemma_required_checks_ok(req: Seq<u32>, m: MapModel)
    requires
        required_checks(req, m) is Ok,
    ensures
        forall|i: int| 0 <= i < req.len() ==> lookup(m.fields, #[trigger] req[i]) is Some,
    decreases req.len(),
{
    if req.len() > 0 {
        lemma_required_checks_ok(req.drop_first(), m);
        assert forall|i: int| 0 <= i < req.len() implies lookup(m.fields, #[trigger] req[i]) is Some by {
            if i > 0 {
                assert(req[i] == req.drop_first()[i - 1]);
            }
        }
    }
}

/// A message that passes validation against an application dictionary
/// with a version is of a type the dictionary knows and holds every field
/// that its header, its trailer and its type require; where a dictionary
/// checks the order of fields, its header, body and trailer fields stood
/// in that order.
pub proof fn law_valid_message_is_complete(
    m: MessageModel,
    sdd: Option<DataDictionaryModel>,
    add: DataDictionaryModel,
    begin_string: Seq<char>,
    msg_type: Seq<char>,
)
    requires
        validation(m, sdd, add, begin_string, msg_type) is Ok,
    ensures
        add.version is Some ==> (find_message(add.messages, msg_type) matches Some(mm) && (forall|t: u32|
            add.header.required.contains(t) ==> lookup(m.header.fields, t) is Some) && (forall|t: u32|
            add.trailer.required.contains(t) ==> lookup(m.trailer.fields, t) is Some) && (forall|t: u32|
            mm.required.contains(t) ==> lookup(m.body.fields, t) is Some)),
        (match sdd {
            Some(d) => d.check_fields_out_of_order,
            None => false,
        } || add.check_fields_out_of_order) ==> m.valid_structure,
{
    if add.version is Some {
        let mm = find_message(add.messages, msg_type)->Some_0;
        lemma_required_checks_ok(add.header.required, m.header);
        lemma_required_checks_ok(add.trailer.required, m.trailer);
        lemma_required_checks_ok(mm.required, m.body);
    }
}

proof fn lemma_fields_checks_each(
    dd: DataDictionaryModel,
    fs: Seq<(u32, Seq<char>)>,
    m: MapModel,
    msg_type: Seq<char>,
    last: u32,
)
    requires
        fields_checks(dd, fs, m, None, msg_type, last) is Ok,
    ensures
        forall|i: int| 0 <= i < fs.len() ==> message_field_checks(dd, #[trigger] fs[i].0, fs[i].1, m, msg_type) is Ok,
    decreases fs.len(),
{
    if fs.len() > 0 {
        lemma_fields_checks_each(dd, fs.drop_first(), m, msg_type, fs[0].0);
        assert forall|i: int| 0 <= i < fs.len() implies message_field_checks(dd, #[trigger] fs[i].0, fs[i].1, m, msg_type)
            is Ok by {
            if i > 0 {
                assert(fs[i] == fs.drop_first()[i - 1]);
            }
        }
    }
}

/// Each field of the body of a message that passes validation has a value
/// where the application dictionary asks fields to have one; where the
/// dictionary has a version and the field is checked (not user-defined
/// unless those are checked), its tag is one the dictionary defines unless
/// unknown fields are allowed, and a field with enumerated values (not
/// lists of them) holds one of them.
pub proof fn law_valid_body_fields(
    m: MessageModel,
    sdd: Option<DataDictionaryModel>,
    add: DataDictionaryModel,
    begin_string: Seq<char>,
    msg_type: Seq<char>,
    i: int,
)
    requires
        validation(m, sdd, add, begin_string, msg_type) is Ok,
        0 <= i < m.body.fields.len(),
    ensures
        ({
            let (tag, value) = m.body.fields[i];
            &&& add.check_fields_have_values ==> value.len() > 0
            &&& (add.version matches Some(v) && v.len() > 0 && should_check_tag(add, tag)) ==> {
                &&& !add.allow_unknown_message_fields ==> find_field(add.fields_by_tag, tag) is Some
                &&& find_field(add.fields_by_tag, tag) matches Some(f) ==> (f.enums.len() > 0 && !f.multiple
                    ==> has_enum(f.enums, value))
            }
        }),
{
    assert(map_checks(add, m.body, msg_type) is Ok);
    assert(fields_checks(add, m.body.fields, m.body, None, msg_type, 0) is Ok);
    lemma_fields_checks_each(add, m.body.fields, m.body, msg_type, 0);
    let tag = m.body.fields[i].0;
    assert(message_field_checks(add, tag, m.body.fields[i].1, m.body, msg_type) is Ok);
}

/// A message that passes validation against an application dictionary
/// with a version holds, in each group counter field of its type that its
/// body sets and that is checked (neither a header nor a trailer field,
/// and not user-defined unless those are checked), the number of entries
/// of that group in its body.
pub proof fn law_valid_group_counts(
    m: MessageModel,
    sdd: Option<DataDictionaryModel>,
    add: DataDictionaryModel,
    begin_string: Seq<char>,
    msg_type: Seq<char>,
    i: int,
)
    requires
        validation(m, sdd, add, begin_string, msg_type) is Ok,
        0 <= i < m.body.fields.len(),
        add.version matches Some(v) && v.len() > 0,
        should_check_tag(add, m.body.fields[i].0),
        !crate::message::header_tag(m.body.fields[i].0, Some(add)),
        !crate::message::trailer_tag(m.body.fields[i].0, Some(add)),
        is_group_of(add, msg_type, m.body.fields[i].0),
    ensures
        crate::message::int_field(m.body, m.body.fields[i].0) matches Ok(n) && n as nat == entries_with(
            m.body.groups,
            m.body.fields[i].0,
        ).len(),
{
    assert(map_checks(add, m.body, msg_type) is Ok);
    assert(fields_checks(add, m.body.fields, m.body, None, msg_type, 0) is Ok);
    lemma_fields_checks_each(add, m.body.fields, m.body, msg_type, 0);
    let tag = m.body.fields[i].0;
    assert(message_field_checks(add, tag, m.body.fields[i].1, m.body, msg_type) is Ok);
    assert(group_count_check(add, tag, m.body, msg_type) is Ok);
}

/// Validation of a message against its dictionaries.
pub open spec fn validation(
    m: MessageModel,
    sdd: Option<DataDictionaryModel>,
    add: DataDictionaryModel,
    begin_string: Seq<char>,
    msg_type: Seq<char>,
) -> CheckResult {
    if (match sdd {
        Some(d) => d.version == Some(begin_string),
        None => false,
    }) {
        fail(ValidationErrorModel::UnsupportedVersion(begin_string))
    } else if (match sdd {
        Some(d) => d.check_fields_out_of_order,
        None => false,
    } || add.check_fields_out_of_order) && !m.valid_structure {
        fail(ValidationErrorModel::InvalidStructure(m.field))
    } else {
        then_check(
            if add.version is Some {
                match find_message(add.messages, msg_type) {
                    None => fail(ValidationErrorModel::InvalidMessageType(msg_type)),
                    Some(mm) => then_check(
                        required_checks(add.header.required, m.header),
                        then_check(required_checks(add.trailer.required, m.trailer), required_checks(mm.required, m.body)),
                    ),
                }
            } else {
                Ok(())
            },
            then_check(
                match sdd {
                    Some(d) => then_check(map_checks(d, m.header, msg_type), map_checks(d, m.trailer, msg_type)),
                    None => Ok(()),
                },
                map_checks(add, m.body, msg_type),
            ),
        )
    }
}

/// Whether a check's result is what the model says (which is no panic).
pub open spec fn checked(r: Result<(), MessageValidationError>, c: CheckResult) -> bool {
    match c {
        Ok(_) => r is Ok,
        Err(Some(e)) => r matches Err(x) && x@ == e,
        Err(None) => false,
    }
}

/// Whether each part of `value` between spaces is an enumerated value of `f`.
fn all_parts_are_enums(f: &DDField, value: &str) -> (r: bool)
    ensures
        r == all_parts_enums(f@.enums, value@),
{
    let cs = str_chars(value);
    let mut start: usize = 0;
    while start <= cs.len()
        invariant
            cs@ == value@,
            start <= cs@.len() + 1,
            all_parts_enums(f@.enums, value@) == parts_from(f@.enums, value@, start as nat),
        decreases cs.len() + 1 - start,
    {
        let end = match crate::message::find_char(&cs, start, ' ') {
            Some(e) => e,
            None => cs.len(),
        };
        let part = crate::message::chars_range(&cs, start, end);
        let part_string = string_from_chars(part.as_slice());
        if !f.has_enum_value(part_string.as_str()) {
            return false;
        }
        if end == cs.len() {
            return true;
        }
        start = end + 1;
    }
    true
}

impl DataDictionary {
    /// A map has no field met twice while it was read.
    fn check_has_no_repeated_tags(map: &FieldMap) -> (r: Result<(), MessageValidationError>)
        ensures
            checked(r, no_repeated_check(map@)),
    {
        let repeated = map.repeated_tags();
        if repeated.len() > 0 {
            Err(MessageValidationError::RepeatedTag(repeated[0]))
        } else {
            Ok(())
        }
    }

    /// A field has a value, where fields must.
    fn check_has_value(&self, field: &FieldBase) -> (r: Result<(), MessageValidationError>)
        ensures
            checked(r, has_value_check(self@, field@.0, field@.1)),
    {
        if self.check_fields_have_values && field.value().as_str().is_empty() {
            Err(MessageValidationError::NoTagValue(field.tag()))
        } else {
            Ok(())
        }
    }

    /// The format of a field's value; no format is checked yet.
    fn check_valid_format(&self, _field: &FieldBase) -> (r: Result<(), MessageValidationError>)
        ensures
            r is Ok,
    {
        Ok(())
    }

    /// A field is defined, unless unknown fields are allowed.
    fn check_valid_tag_number(&self, tag: Tag) -> (r: Result<(), MessageValidationError>)
        requires
            self.wf(),
        ensures
            checked(r, valid_tag_number_check(self@, tag)),
    {
        if !self.allow_unknown_message_fields && self.field_by_tag(tag).is_none() {
            return Err(MessageValidationError::InvalidTagNumber(tag));
        }
        Ok(())
    }

    /// A field with enumerated values holds one of them, or a list of them
    /// where its values are lists.
    fn check_value(&self, field: &FieldBase) -> (r: Result<(), MessageValidationError>)
        requires
            self.wf(),
        ensures
            checked(r, value_check(self@, field@.0, field@.1)),
    {
        match self.field_by_tag(field.tag()) {
            Some(fld) => {
                if fld.has_enums() {
                    if fld.is_multiple_value_field_with_enums() {
                        if !all_parts_are_enums(fld, field.value().as_str()) {
                            return Err(MessageValidationError::IncorrectTagValue(field.tag()));
                        }
                        Ok(())
                    } else if !fld.has_enum_value(field.value().as_str()) {
                        Err(MessageValidationError::IncorrectTagValue(field.tag()))
                    } else {
                        Ok(())
                    }
                } else {
                    Ok(())
                }
            },
            None => Ok(()),
        }
    }

    /// Where unknown message fields are allowed, a field must be one of the
    /// message's; else nothing is checked.
    fn check_is_in_message(&self, field: &FieldBase, msg_type: &str) -> (r: Result<(), MessageValidationError>)
        requires
            self.wf(),
        ensures
            checked(r, in_message_check(self@, field@.0, msg_type@)),
    {
        if !self.allow_unknown_message_fields {
            return Ok(());
        }
        match self.get_map_for_message(msg_type) {
            Some(dd) => {
                if dd.is_field(field.tag()) {
                    return Ok(());
                }
            },
            None => {},
        }
        Err(MessageValidationError::TagNotDefinedForMessage(field.tag(), msg_type.to_owned()))
    }

    /// A field of a group entry is one of the group's.
    fn check_is_in_group(&self, field: &FieldBase, dd_group: &DDGroup, msg_type: &str) -> (r: Result<(), MessageValidationError>)
        requires
            dd_group.entry().wf(),
        ensures
            checked(r, in_group_check(dd_group@, field@.0, msg_type@)),
    {
        if dd_group.map().is_field(field.tag()) {
            Ok(())
        } else {
            Err(MessageValidationError::TagNotDefinedForMessage(field.tag(), msg_type.to_owned()))
        }
    }

    /// Whether the message `msg_type` has a group counted by `tag`.
    fn is_group(&self, msg_type: &str, tag: Tag) -> (r: bool)
        requires
            self.wf(),
        ensures
            r == is_group_of(self@, msg_type@, tag),
    {
        match self.get_map_for_message(msg_type) {
            Some(m) => m.is_group(tag),
            None => false,
        }
    }

    /// A group counter of the message holds the number of its entries in `map`.
    fn check_group_count(&self, field: &FieldBase, map: &FieldMap, msg_type: &str) -> (r: Result<(), MessageValidationError>)
        requires
            self.wf(),
            map.wf(),
        ensures
            checked(r, group_count_check(self@, field@.0, map@, msg_type@)),
    {
        if self.is_group(msg_type, field.tag()) {
            let n = match map.get_int(field.tag()) {
                Err(e) => {
                    return Err(MessageValidationError::FieldMapError(e));
                },
                Ok(n) => n,
            };
            if n as usize != map.group_count(field.tag()) {
                return Err(MessageValidationError::RepeatingGroupCountMismatch(field.tag()));
            }
        }
        Ok(())
    }

    /// Whether a field is checked: user-defined fields only where they must be.
    fn should_check_tag(&self, field: &FieldBase) -> (r: bool)
        ensures
            r == should_check_tag(self@, field@.0),
    {
        if !self.check_user_defined_fields && field.tag() >= crate::fields::limits::USER_MIN {
            return false;
        }
        true
    }

    /// Whether the version is set and not empty.
    fn version_is_set(&self) -> (r: bool)
        ensures
            r == match self@.version {
                Some(v) => v.len() > 0,
                None => false,
            },
    {
        match &self.version {
            Some(v) => !v.as_str().is_empty(),
            None => false,
        }
    }

    /// Whether the version is set and empty.
    fn version_is_empty(&self) -> (r: bool)
        ensures
            r == match self@.version {
                Some(v) => v.len() == 0,
                None => false,
            },
    {
        match &self.version {
            Some(v) => v.as_str().is_empty(),
            None => false,
        }
    }
}

pub open spec fn group_def_view(g: Option<&DDGroup>) -> Option<DDGroupModel> {
    match g {
        Some(x) => Some(x@),
        None => None,
    }
}

proof fn lemma_fields_checks_defined(
    dd: DataDictionaryModel,
    fs: Seq<(u32, Seq<char>)>,
    m: MapModel,
    gd: Option<DDGroupModel>,
    msg_type: Seq<char>,
    last: u32,
)
    ensures
        fields_checks(dd, fs, m, gd, msg_type, last) != Err::<(), Option<ValidationErrorModel>>(None),
    decreases fs.len(),
{
    if fs.len() > 0 {
        lemma_fields_checks_defined(dd, fs.drop_first(), m, gd, msg_type, fs[0].0);
    }
}

proof fn lemma_group_checks_defined(dd: DataDictionaryModel, e: GroupModel, gd: Option<DDGroupModel>, msg_type: Seq<char>)
    ensures
        group_checks(dd, e, gd, msg_type) != Err::<(), Option<ValidationErrorModel>>(None),
    decreases e, 2nat, 0nat,
{
    if let Some(g) = gd {
        lemma_fields_checks_defined(dd, e.map.fields, e.map, gd, msg_type, 0);
        lemma_nested_tags_defined(dd, e, counter_tags(e.map.groups), g, msg_type);
    }
}

proof fn lemma_nested_tags_defined(dd: DataDictionaryModel, e: GroupModel, ts: Seq<u32>, g: DDGroupModel, msg_type: Seq<char>)
    ensures
        nested_tags_checks(dd, e, ts, g, msg_type) != Err::<(), Option<ValidationErrorModel>>(None),
    decreases e, 1nat, ts.len(),
{
    if ts.len() > 0 {
        lemma_nested_entries_defined(dd, e, entries_with(e.map.groups, ts[0]), find_group(g.map.groups, ts[0]), msg_type);
        lemma_nested_tags_defined(dd, e, ts.drop_first(), g, msg_type);
    }
}

proof fn lemma_nested_entries_defined(
    dd: DataDictionaryModel,
    e: GroupModel,
    es: Seq<GroupModel>,
    gd: Option<DDGroupModel>,
    msg_type: Seq<char>,
)
    ensures
        nested_entries_checks(dd, e, es, gd, msg_type) != Err::<(), Option<ValidationErrorModel>>(None),
    decreases e, 0nat, es.len(),
{
    if es.len() > 0 {
        if exists|j: int| 0 <= j < e.map.groups.len() && e.map.groups[j] == es[0] {
            let j = choose|j: int| 0 <= j < e.map.groups.len() && e.map.groups[j] == es[0];
            assert(decreases_to!(e => e.map.groups[j]));
            lemma_group_checks_defined(dd, es[0], gd, msg_type);
            lemma_nested_entries_defined(dd, e, es.drop_first(), gd, msg_type);
        }
    }
}

impl DataDictionary {
    /// The checks of a field of a message, a header or a trailer.
    fn message_field_check(&self, field: &FieldBase, map: &FieldMap, msg_type: &str) -> (r: Result<(), MessageValidationError>)
        requires
            self.wf(),
            map.wf(),
        ensures
            checked(r, message_field_checks(self@, field@.0, field@.1, map@, msg_type@)),
    {
        match self.check_has_value(field) {
            Err(e) => {
                return Err(e);
            },
            Ok(()) => {},
        }
        if self.version_is_set() {
            let _ = self.check_valid_format(field);
            if self.should_check_tag(field) {
                match self.check_valid_tag_number(field.tag()) {
                    Err(e) => {
                        return Err(e);
                    },
                    Ok(()) => {},
                }
                match self.check_value(field) {
                    Err(e) => {
                        return Err(e);
                    },
                    Ok(()) => {},
                }
                if !crate::message::Message::is_header_field(field.tag(), Some(self))
                    && !crate::message::Message::is_trailer_field(field.tag(), Some(self)) {
                    match self.check_is_in_message(field, msg_type) {
                        Err(e) => {
                            return Err(e);
                        },
                        Ok(()) => {},
                    }
                    match self.check_group_count(field, map, msg_type) {
                        Err(e) => {
                            return Err(e);
                        },
                        Ok(()) => {},
                    }
                }
            }
        }
        Ok(())
    }

    /// The checks of a field of a group entry.
    fn group_field_check(&self, field: &FieldBase, map: &FieldMap, group_definition: &DDGroup, msg_type: &str) -> (r: Result<(), MessageValidationError>)
        requires
            self.wf(),
            map.wf(),
            group_definition.entry().wf(),
        ensures
            checked(r, group_field_checks(self@, field@.0, field@.1, map@, group_definition@, msg_type@)),
    {
        match self.check_has_value(field) {
            Err(e) => {
                return Err(e);
            },
            Ok(()) => {},
        }
        if self.version_is_empty() {
            let _ = self.check_valid_format(field);
            if self.should_check_tag(field) {
                match self.check_valid_tag_number(field.tag()) {
                    Err(e) => {
                        return Err(e);
                    },
                    Ok(()) => {},
                }
                match self.check_value(field) {
                    Err(e) => {
                        return Err(e);
                    },
                    Ok(()) => {},
                }
                match self.check_is_in_group(field, group_definition, msg_type) {
                    Err(e) => {
                        return Err(e);
                    },
                    Ok(()) => {},
                }
                match self.check_group_count(field, map, msg_type) {
                    Err(e) => {
                        return Err(e);
                    },
                    Ok(()) => {},
                }
            }
        }
        Ok(())
    }

    /// Checks a group entry against its definition.
    fn iterate_group(&self, group: &Group, group_definition: Option<&DDGroup>, msg_type: &str) -> (r: Result<(), MessageValidationError>)
        requires
            self.wf(),
            group.entry().wf(),
            match group_definition {
                Some(g) => g.entry().wf(),
                None => true,
            },
        ensures
            checked(r, group_checks(self@, group@, group_def_view(group_definition), msg_type@)),
        decreases group.entry().depth(),
    {
        let gdef = match group_definition {
            None => {
                return Err(MessageValidationError::MissingGroupDefinition());
            },
            Some(g) => g,
        };
        let ghost gd = group_def_view(Some(gdef));
        let map = group.map();
        let ghost total = group_checks(self@, group@, gd, msg_type@);
        assert(map@ == group@.map);
        match DataDictionary::check_has_no_repeated_tags(map) {
            Err(e) => {
                return Err(e);
            },
            Ok(()) => {},
        }
        let entries = map.entries();
        let ghost fs = map@.fields;
        let mut last_field: u32 = 0;
        let mut i: usize = 0;
        assert(fs.subrange(0, fs.len() as int) =~= fs);
        while i < entries.len()
            invariant
                self.wf(),
                map.wf(),
                gdef.entry().wf(),
                gd == Some(gdef@),
                group_definition == Some(gdef),
                map@ == group@.map,
                total == group_checks(self@, group@, gd, msg_type@),
                total == then_check(
                    fields_checks(self@, fs, map@, gd, msg_type@, 0),
                    nested_tags_checks(self@, group@, counter_tags(group@.map.groups), gdef@, msg_type@),
                ),
                fs == map@.fields,
                entries@.len() == fs.len(),
                forall|k: int| 0 <= k < entries@.len() ==> (#[trigger] entries@[k]).1@ == fs[k],
                i <= entries@.len(),
                fields_checks(self@, fs, map@, gd, msg_type@, 0) == fields_checks(
                    self@,
                    fs.subrange(i as int, fs.len() as int),
                    map@,
                    gd,
                    msg_type@,
                    last_field,
                ),
            decreases entries.len() - i,
        {
            let field = &entries[i].1;
            let ghost rest = fs.subrange(i as int, fs.len() as int);
            assert(rest[0] == field@);
            assert(rest.drop_first() =~= fs.subrange(i + 1, fs.len() as int));
            if last_field != 0 && field.tag() == last_field {
                return Err(MessageValidationError::RepeatedTag(field.tag()));
            }
            match self.group_field_check(field, map, gdef, msg_type) {
                Err(e) => {
                    return Err(e);
                },
                Ok(()) => {},
            }
            last_field = field.tag();
            i = i + 1;
        }
        proof {
            lemma_fields_checks_defined(self@, fs, map@, gd, msg_type@, 0);
        }
        let tags = map.group_tags();
        let ghost ts = tags@;
        let mut j: usize = 0;
        assert(ts.subrange(0, ts.len() as int) =~= ts);
        while j < tags.len()
            invariant
                self.wf(),
                map.wf(),
                group.entry().wf(),
                *map == group.entry(),
                map@ == group@.map,
                total == group_checks(self@, group@, gd, msg_type@),
                total == nested_tags_checks(self@, group@, ts, gdef@, msg_type@),
                gd == Some(gdef@),
                group_definition == Some(gdef),
                gdef.entry().wf(),
                ts == tags@,
                ts == counter_tags(group@.map.groups),
                j <= ts.len(),
                nested_tags_checks(self@, group@, ts, gdef@, msg_type@) == nested_tags_checks(
                    self@,
                    group@,
                    ts.subrange(j as int, ts.len() as int),
                    gdef@,
                    msg_type@,
                ),
            decreases tags.len() - j,
        {
            let tag = tags[j];
            let ghost rest = ts.subrange(j as int, ts.len() as int);
            assert(rest[0] == tag);
            assert(rest.drop_first() =~= ts.subrange(j + 1, ts.len() as int));
            let es = map.group_entries(tag);
            let ghost esv = entries_with(group@.map.groups, tag);
            let ddg = gdef.map().get_group(tag);
            let ghost gd2 = group_def_view(ddg);
            proof {
                lemma_entries_with_members(group@.map.groups, tag);
            }
            let mut k: usize = 0;
            assert(esv.subrange(0, esv.len() as int) =~= esv);
            while k < es.len()
                invariant
                    self.wf(),
                    map.wf(),
                    *map == group.entry(),
                    map@ == group@.map,
                    gd == Some(gdef@),
                    group_definition == Some(gdef),
                    j < ts.len(),
                    total == group_checks(self@, group@, gd, msg_type@),
                    total == then_check(
                        nested_entries_checks(self@, group@, esv, gd2, msg_type@),
                        nested_tags_checks(self@, group@, ts.subrange(j + 1, ts.len() as int), gdef@, msg_type@),
                    ),
                    match ddg {
                        Some(g) => g.entry().wf(),
                        None => true,
                    },
                    gd2 == group_def_view(ddg),
                    esv == entries_with(group@.map.groups, tag),
                    es@.len() == esv.len(),
                    forall|x: int|
                        0 <= x < es@.len() ==> (#[trigger] es@[x])@ == esv[x] && es@[x].entry().wf()
                            && es@[x].entry().depth() < map.depth(),
                    forall|x: int|
                        0 <= x < esv.len() ==> exists|y: int|
                            0 <= y < group@.map.groups.len() && group@.map.groups[y] == #[trigger] esv[x],
                    k <= es@.len(),
                    nested_entries_checks(self@, group@, esv, gd2, msg_type@) == nested_entries_checks(
                        self@,
                        group@,
                        esv.subrange(k as int, esv.len() as int),
                        gd2,
                        msg_type@,
                    ),
                decreases es.len() - k,
            {
                let ghost rest2 = esv.subrange(k as int, esv.len() as int);
                assert(rest2[0] == esv[k as int]);
                assert(rest2.drop_first() =~= esv.subrange(k + 1, esv.len() as int));
                assert(exists|y: int| 0 <= y < group@.map.groups.len() && group@.map.groups[y] == rest2[0]);
                match self.iterate_group(&es[k], ddg, msg_type) {
                    Err(e) => {
                        return Err(e);
                    },
                    Ok(()) => {},
                }
                k = k + 1;
            }
            proof {
                lemma_nested_entries_defined(self@, group@, esv, gd2, msg_type@);
            }
            j = j + 1;
        }
        Ok(())
    }
}

impl DataDictionary {
    /// Checks a header, a body or a trailer against the message `msg_type`.
    fn iterate(&self, message: &FieldMap, msg_type: &str) -> (r: Result<(), MessageValidationError>)
        requires
            self.wf(),
            message.wf(),
            map_checks(self@, message@, msg_type@) != Err::<(), Option<ValidationErrorModel>>(None),
        ensures
            checked(r, map_checks(self@, message@, msg_type@)),
    {
        let ghost total = map_checks(self@, message@, msg_type@);
        match DataDictionary::check_has_no_repeated_tags(message) {
            Err(e) => {
                return Err(e);
            },
            Ok(()) => {},
        }
        let entries = message.entries();
        let ghost fs = message@.fields;
        let mut last_field: u32 = 0;
        let mut i: usize = 0;
        assert(fs.subrange(0, fs.len() as int) =~= fs);
        while i < entries.len()
            invariant
                self.wf(),
                message.wf(),
                total == map_checks(self@, message@, msg_type@),
                total != Err::<(), Option<ValidationErrorModel>>(None),
                total == then_check(
                    fields_checks(self@, fs, message@, None, msg_type@, 0),
                    top_tags_checks(self@, message@, counter_tags(message@.groups), msg_type@),
                ),
                fs == message@.fields,
                entries@.len() == fs.len(),
                forall|k: int| 0 <= k < entries@.len() ==> (#[trigger] entries@[k]).1@ == fs[k],
                i <= entries@.len(),
                fields_checks(self@, fs, message@, None, msg_type@, 0) == fields_checks(
                    self@,
                    fs.subrange(i as int, fs.len() as int),
                    message@,
                    None,
                    msg_type@,
                    last_field,
                ),
            decreases entries.len() - i,
        {
            let field = &entries[i].1;
            let ghost rest = fs.subrange(i as int, fs.len() as int);
            assert(rest[0] == field@);
            assert(rest.drop_first() =~= fs.subrange(i + 1, fs.len() as int));
            if last_field != 0 && field.tag() == last_field {
                return Err(MessageValidationError::RepeatedTag(field.tag()));
            }
            match self.message_field_check(field, message, msg_type) {
                Err(e) => {
                    return Err(e);
                },
                Ok(()) => {},
            }
            last_field = field.tag();
            i = i + 1;
        }
        proof {
            lemma_fields_checks_defined(self@, fs, message@, None, msg_type@, 0);
        }
        let tags = message.group_tags();
        let ghost ts = tags@;
        let mut j: usize = 0;
        assert(ts.subrange(0, ts.len() as int) =~= ts);
        while j < tags.len()
            invariant
                self.wf(),
                message.wf(),
                total == map_checks(self@, message@, msg_type@),
                total != Err::<(), Option<ValidationErrorModel>>(None),
                total == top_tags_checks(self@, message@, ts.subrange(j as int, ts.len() as int), msg_type@),
                ts == tags@,
                j <= ts.len(),
            decreases tags.len() - j,
        {
            let tag = tags[j];
            let ghost rest = ts.subrange(j as int, ts.len() as int);
            assert(rest[0] == tag);
            assert(rest.drop_first() =~= ts.subrange(j + 1, ts.len() as int));
            let es = message.group_entries(tag);
            let ghost esv = entries_with(message@.groups, tag);
            if es.len() > 0 {
                let mm = match self.get_map_for_message(msg_type) {
                    None => {
                        proof {
                            assert(total == Err::<(), Option<ValidationErrorModel>>(None));
                        }
                        return Ok(());
                    },
                    Some(mm) => mm,
                };
                let ddg = mm.get_group(tag);
                let ghost gd = group_def_view(ddg);
                let mut k: usize = 0;
                assert(esv.subrange(0, esv.len() as int) =~= esv);
                while k < es.len()
                    invariant
                        self.wf(),
                        message.wf(),
                        match ddg {
                            Some(g) => g.entry().wf(),
                            None => true,
                        },
                        gd == group_def_view(ddg),
                        esv == entries_with(message@.groups, tag),
                        es@.len() == esv.len(),
                        forall|x: int| 0 <= x < es@.len() ==> (#[trigger] es@[x])@ == esv[x] && es@[x].entry().wf(),
                        k <= es@.len(),
                        total == map_checks(self@, message@, msg_type@),
                        total == then_check(
                            top_entries_checks(self@, esv.subrange(k as int, esv.len() as int), gd, msg_type@),
                            top_tags_checks(self@, message@, ts.subrange(j + 1, ts.len() as int), msg_type@),
                        ),
                        j < ts.len(),
                    decreases es.len() - k,
                {
                    let ghost rest2 = esv.subrange(k as int, esv.len() as int);
                    assert(rest2[0] == esv[k as int]);
                    assert(rest2.drop_first() =~= esv.subrange(k + 1, esv.len() as int));
                    proof {
                        lemma_group_checks_defined(self@, esv[k as int], gd, msg_type@);
                    }
                    match self.iterate_group(&es[k], ddg, msg_type) {
                        Err(e) => {
                            return Err(e);
                        },
                        Ok(()) => {},
                    }
                    k = k + 1;
                }
            }
            j = j + 1;
        }
        Ok(())
    }

    /// The required fields of the header, the trailer and the message
    /// `msg_type`, which must be defined, are set in the message.
    fn check_has_required(&self, message: &Message, msg_type: &str) -> (r: Result<(), MessageValidationError>)
        requires
            self.wf(),
            message.wf(),
            find_message(self@.messages, msg_type@) is Some,
        ensures
            checked(
                r,
                then_check(
                    required_checks(self@.header.required, message@.header),
                    then_check(
                        required_checks(self@.trailer.required, message@.trailer),
                        required_checks(find_message(self@.messages, msg_type@).unwrap().required, message@.body),
                    ),
                ),
            ),
    {
        match check_required(self.header.required_fields(), message.header().map()) {
            Err(e) => {
                return Err(e);
            },
            Ok(()) => {},
        }
        match check_required(self.trailer.required_fields(), message.trailer().map()) {
            Err(e) => {
                return Err(e);
            },
            Ok(()) => {},
        }
        let mm = self.get_map_for_message(msg_type).unwrap();
        check_required(mm.required_fields(), message.body())
    }

    /// Validates a message against the session dictionary (which checks its
    /// header and trailer) and the application dictionary (which checks its
    /// body). Where the session dictionary's version is `begin_string`, the
    /// version is refused.
    pub fn validate(
        message: &Message,
        session_data_dictionary: Option<&DataDictionary>,
        app_data_dictionary: &DataDictionary,
        begin_string: &str,
        msg_type: &str,
    ) -> (r: Result<(), MessageValidationError>)
        requires
            message.wf(),
            crate::message::dd_wf(session_data_dictionary),
            app_data_dictionary.wf(),
            validation(
                message@,
                crate::message::dd_view(session_data_dictionary),
                app_data_dictionary@,
                begin_string@,
                msg_type@,
            ) != Err::<(), Option<ValidationErrorModel>>(None),
        ensures
            checked(
                r,
                validation(
                    message@,
                    crate::message::dd_view(session_data_dictionary),
                    app_data_dictionary@,
                    begin_string@,
                    msg_type@,
                ),
            ),
    {
        if let Some(dictionary) = session_data_dictionary {
            if let Some(version) = dictionary.version() {
                if str_eq(version.as_str(), begin_string) {
                    return Err(MessageValidationError::UnsupportedVersion(begin_string.to_owned()));
                }
            }
        }
        let check_order_session = match session_data_dictionary {
            Some(d) => d.check_fields_out_of_order(),
            None => false,
        };
        let check_order_app = app_data_dictionary.check_fields_out_of_order();
        if check_order_session || check_order_app {
            match message.has_valid_structure() {
                Err(e) => {
                    return Err(e);
                },
                Ok(()) => {},
            }
        }
        if app_data_dictionary.version().is_some() {
            match app_data_dictionary.check_msg_type(msg_type) {
                Err(e) => {
                    return Err(e);
                },
                Ok(()) => {},
            }
            match app_data_dictionary.check_has_required(message, msg_type) {
                Err(e) => {
                    return Err(e);
                },
                Ok(()) => {},
            }
        }
        if let Some(dictionary) = session_data_dictionary {
            match dictionary.iterate(message.header().map(), msg_type) {
                Err(e) => {
                    return Err(e);
                },
                Ok(()) => {},
            }
            match dictionary.iterate(message.trailer().map(), msg_type) {
                Err(e) => {
                    return Err(e);
                },
                Ok(()) => {},
            }
        }
        app_data_dictionary.iterate(message.body(), msg_type)
    }
}

/// The required fields `req` are set in `map`.
fn check_required(req: &Vec<Tag>, map: &FieldMap) -> (r: Result<(), MessageValidationError>)
    requires
        map.wf(),
    ensures
        checked(r, required_checks(req@, map@)),
{
    let mut i: usize = 0;
    assert(req@.subrange(0, req@.len() as int) =~= req@);
    while i < req.len()
        invariant
            map.wf(),
            i <= req@.len(),
            required_checks(req@, map@) == required_checks(req@.subrange(i as int, req@.len() as int), map@),
        decreases req.len() - i,
    {
        let ghost rest = req@.subrange(i as int, req@.len() as int);
        assert(rest[0] == req@[i as int]);
        assert(rest.drop_first() =~= req@.subrange(i + 1, req@.len() as int));
        if !map.is_field_set(req[i]) {
            return Err(MessageValidationError::RequiredTagMissing(req[i]));
        }
        i = i + 1;
    }
    Ok(())
}

} // verus!
