//! FIX messages: a header, a body and a trailer, read from and written to
//! their text form.
use vstd::prelude::*;

use crate::data_dictionary::{
    find_field, find_group, find_message, DDGroup, DDGroupModel, DDMap, DDMapModel, DataDictionary,
    DataDictionaryModel, MessageValidationError,
};
use crate::field_map::{
    entries_with, field_chars, lookup, map_len, map_string, map_total, modulus, FieldBase,
    FieldMap, FieldMapError, Group, GroupModel, MapModel, Tag,
};
use crate::message_factory::MessageFactory;
use crate::tags;
use crate::text::{
    decimal, decimal_chars, parse_unsigned, parse_unsigned_chars, push_str_chars, str_eq,
    string_from_chars,
};

verus! {

/// The fields that the header writes first: BeginString, BodyLength, MsgType.
pub open spec fn header_field_order() -> Seq<u32> {
    seq![tags::BeginString, tags::BodyLength, tags::MsgType]
}

/// The fields that the trailer writes first: SignatureLength, Signature, CheckSum.
pub open spec fn trailer_field_order() -> Seq<u32> {
    seq![tags::SignatureLength, tags::Signature, tags::CheckSum]
}

/// The text of a message: its header with BeginString, BodyLength and
/// MsgType first, its body with its own field order first, and its trailer
/// with SignatureLength, Signature and CheckSum first.
pub open spec fn message_text(m: MessageModel) -> Seq<char> {
    map_string(m.header, header_field_order()) + map_string(m.body, m.body.order) + map_string(
        m.trailer,
        trailer_field_order(),
    )
}

fn header_field_order_vec() -> (r: Vec<Tag>)
    ensures
        r@ == header_field_order(),
{
    let mut r: Vec<Tag> = Vec::new();
    r.push(tags::BeginString);
    r.push(tags::BodyLength);
    r.push(tags::MsgType);
    assert(r@ =~= header_field_order());
    r
}

fn trailer_field_order_vec() -> (r: Vec<Tag>)
    ensures
        r@ == trailer_field_order(),
{
    let mut r: Vec<Tag> = Vec::new();
    r.push(tags::SignatureLength);
    r.push(tags::Signature);
    r.push(tags::CheckSum);
    assert(r@ =~= trailer_field_order());
    r
}

/// The header of a message.
pub struct Header(FieldMap);

/// The trailer of a message.
pub struct Trailer(FieldMap);

impl View for Header {
    type V = MapModel;

    closed spec fn view(&self) -> MapModel {
        self.0@
    }
}

impl View for Trailer {
    type V = MapModel;

    closed spec fn view(&self) -> MapModel {
        self.0@
    }
}

impl Header {
    /// The header's fields.
    pub closed spec fn map_of(self) -> FieldMap {
        self.0
    }

    /// An empty header.
    pub fn new() -> (r: Self)
        ensures
            r.map_of().wf(),
            r@ == FieldMap::empty_model(),
    {
        Header(FieldMap::new())
    }

    /// The header's fields.
    pub fn map(&self) -> (r: &FieldMap)
        ensures
            *r == self.map_of(),
            r@ == self@,
    {
        &self.0
    }

    /// The header's fields, to change them.
    pub fn map_mut(&mut self) -> (r: &mut FieldMap)
        ensures
            *r == old(self).map_of(),
            final(self).map_of() == *final(r),
            final(self)@ == final(r)@,
    {
        &mut self.0
    }

    /// The header as text: BeginString, BodyLength and MsgType first.
    pub fn calculate_string(&self) -> (r: String)
        requires
            self.map_of().wf(),
        ensures
            r@ == map_string(self@, header_field_order()),
    {
        self.0.calculate_string(Some(header_field_order_vec()))
    }
}

impl Trailer {
    /// The trailer's fields.
    pub closed spec fn map_of(self) -> FieldMap {
        self.0
    }

    /// An empty trailer.
    pub fn new() -> (r: Self)
        ensures
            r.map_of().wf(),
            r@ == FieldMap::empty_model(),
    {
        Trailer(FieldMap::new())
    }

    /// The trailer's fields.
    pub fn map(&self) -> (r: &FieldMap)
        ensures
            *r == self.map_of(),
            r@ == self@,
    {
        &self.0
    }

    /// The trailer's fields, to change them.
    pub fn map_mut(&mut self) -> (r: &mut FieldMap)
        ensures
            *r == old(self).map_of(),
            final(self).map_of() == *final(r),
            final(self)@ == final(r)@,
    {
        &mut self.0
    }

    /// The trailer as text: SignatureLength, Signature and CheckSum first.
    pub fn calculate_string(&self) -> (r: String)
        requires
            self.map_of().wf(),
        ensures
            r@ == map_string(self@, trailer_field_order()),
    {
        self.0.calculate_string(Some(trailer_field_order_vec()))
    }
}

/// What a message holds.
pub struct MessageModel {
    pub header: MapModel,
    pub body: MapModel,
    pub trailer: MapModel,
    pub application_data_dictionary: Option<DataDictionaryModel>,
    /// The first field met out of place while the message was read.
    pub field: u32,
    /// Whether the header, body and trailer fields stood in that order.
    pub valid_structure: bool,
}

/// A FIX message.
pub struct Message {
    header: Header,
    body: FieldMap,
    trailer: Trailer,
    application_data_dictionary: Option<DataDictionary>,
    field_: u32,
    valid_structure_: bool,
}

impl View for Message {
    type V = MessageModel;

    closed spec fn view(&self) -> MessageModel {
        MessageModel {
            header: self.header@,
            body: self.body@,
            trailer: self.trailer@,
            application_data_dictionary: match self.application_data_dictionary {
                Some(d) => Some(d@),
                None => None,
            },
            field: self.field_,
            valid_structure: self.valid_structure_,
        }
    }
}

impl Default for Message {
    fn default() -> (r: Self)
        ensures
            r.wf(),
            r@ == (MessageModel {
                header: FieldMap::empty_model(),
                body: FieldMap::empty_model(),
                trailer: FieldMap::empty_model(),
                application_data_dictionary: None,
                field: 0,
                valid_structure: true,
            }),
    {
        Message {
            header: Header::new(),
            body: FieldMap::new(),
            trailer: Trailer::new(),
            application_data_dictionary: None,
            field_: 0,
            valid_structure_: true,
        }
    }
}

/// The tags that are header fields whatever the data dictionary says.
pub open spec fn is_standard_header_tag(tag: u32) -> bool {
    tag == tags::BeginString || tag == tags::BodyLength || tag == tags::MsgType || tag
        == tags::SenderCompID || tag == tags::TargetCompID || tag == tags::OnBehalfOfCompID || tag
        == tags::DeliverToCompID || tag == tags::SecureDataLen || tag == tags::MsgSeqNum || tag
        == tags::SenderSubID || tag == tags::SenderLocationID || tag == tags::TargetSubID || tag
        == tags::TargetLocationID || tag == tags::OnBehalfOfSubID || tag == tags::OnBehalfOfLocationID
        || tag == tags::DeliverToSubID || tag == tags::DeliverToLocationID || tag == tags::PossDupFlag
        || tag == tags::PossResend || tag == tags::SendingTime || tag == tags::OrigSendingTime || tag
        == tags::XmlDataLen || tag == tags::XmlData || tag == tags::MessageEncoding || tag
        == tags::LastMsgSeqNumProcessed
}

/// Whether `tag` is a header field: a standard one, or one that the data
/// dictionary's header defines.
pub open spec fn header_tag(tag: u32, dd: Option<DataDictionaryModel>) -> bool {
    is_standard_header_tag(tag) || match dd {
        Some(d) => find_field(d.header.fields, tag) is Some,
        None => false,
    }
}

/// Whether `tag` is a trailer field: SignatureLength, Signature, CheckSum,
/// or one that the data dictionary's trailer defines.
pub open spec fn trailer_tag(tag: u32, dd: Option<DataDictionaryModel>) -> bool {
    tag == tags::SignatureLength || tag == tags::Signature || tag == tags::CheckSum || match dd {
        Some(d) => find_field(d.trailer.fields, tag) is Some,
        None => false,
    }
}

/// The view of an optional data dictionary.
pub open spec fn dd_view(dd: Option<&DataDictionary>) -> Option<DataDictionaryModel> {
    match dd {
        Some(d) => Some(d@),
        None => None,
    }
}

/// Whether an optional data dictionary is well formed where it is given.
pub open spec fn dd_wf(dd: Option<&DataDictionary>) -> bool {
    match dd {
        Some(d) => d.wf(),
        None => true,
    }
}

/// The body length of a message: what its header, body and trailer add,
/// modulo 2^32.
pub open spec fn body_length_of(m: MessageModel) -> nat {
    (map_len(m.header) + map_len(m.body) + map_len(m.trailer)) % modulus()
}

/// The checksum of a message: the sum of the bytes of its header, body and
/// trailer fields but CheckSum, modulo 256.
pub open spec fn checksum_of(m: MessageModel) -> nat {
    (map_total(m.header) + map_total(m.body) + map_total(m.trailer)) % 256
}

/// The message types of the session layer.
pub open spec fn is_admin_msg_type(t: Seq<char>) -> bool {
    t == "0"@ || t == "A"@ || t == "1"@ || t == "2"@ || t == "3"@ || t == "4"@ || t == "5"@
}

impl Message {
    pub const SOH: char = '\x01';

    /// Well-formedness: the header, body, trailer and data dictionary are well formed.
    pub closed spec fn wf(self) -> bool {
        &&& self.header.0.wf()
        &&& self.body.wf()
        &&& self.trailer.0.wf()
        &&& match self.application_data_dictionary {
            Some(d) => d.wf(),
            None => true,
        }
    }

    /// A copy of the message.
    pub fn duplicate(&self) -> (r: Message)
        requires
            self.wf(),
        ensures
            r.wf(),
            r@ == self@,
    {
        Message {
            header: Header(self.header.0.duplicate()),
            body: self.body.duplicate(),
            trailer: Trailer(self.trailer.0.duplicate()),
            application_data_dictionary: match &self.application_data_dictionary {
                Some(d) => Some(d.duplicate()),
                None => None,
            },
            field_: self.field_,
            valid_structure_: self.valid_structure_,
        }
    }

    pub closed spec fn header_of(self) -> Header {
        self.header
    }

    pub closed spec fn body_of(self) -> FieldMap {
        self.body
    }

    pub closed spec fn trailer_of(self) -> Trailer {
        self.trailer
    }

    pub fn header(&self) -> (r: &Header)
        requires
            self.wf(),
        ensures
            *r == self.header_of(),
            r@ == self@.header,
            r.map_of().wf(),
    {
        &self.header
    }

    pub fn header_mut(&mut self) -> (r: &mut Header)
        ensures
            *r == old(self).header_of(),
            final(self).header_of() == *final(r),
            final(self).body_of() == old(self).body_of(),
            final(self).trailer_of() == old(self).trailer_of(),
            final(self)@ == (MessageModel { header: final(r)@, ..old(self)@ }),
            old(self).wf() ==> (final(self).wf() <==> final(r).map_of().wf()),
    {
        &mut self.header
    }

    pub fn trailer(&self) -> (r: &Trailer)
        requires
            self.wf(),
        ensures
            *r == self.trailer_of(),
            r@ == self@.trailer,
            r.map_of().wf(),
    {
        &self.trailer
    }

    pub fn trailer_mut(&mut self) -> (r: &mut Trailer)
        ensures
            *r == old(self).trailer_of(),
            final(self).trailer_of() == *final(r),
            final(self).header_of() == old(self).header_of(),
            final(self).body_of() == old(self).body_of(),
            final(self)@ == (MessageModel { trailer: final(r)@, ..old(self)@ }),
            old(self).wf() ==> (final(self).wf() <==> final(r).map_of().wf()),
    {
        &mut self.trailer
    }

    /// The body's fields.
    pub fn body(&self) -> (r: &FieldMap)
        requires
            self.wf(),
        ensures
            *r == self.body_of(),
            r@ == self@.body,
            r.wf(),
    {
        &self.body
    }

    /// The body's fields, to change them.
    pub fn body_mut(&mut self) -> (r: &mut FieldMap)
        ensures
            *r == old(self).body_of(),
            final(self).body_of() == *final(r),
            final(self).header_of() == old(self).header_of(),
            final(self).trailer_of() == old(self).trailer_of(),
            final(self)@ == (MessageModel { body: final(r)@, ..old(self)@ }),
            old(self).wf() ==> (final(self).wf() <==> final(r).wf()),
    {
        &mut self.body
    }

    /// `Ok` where the header, body and trailer fields stood in that order
    /// when the message was read; else the first field out of place.
    pub fn has_valid_structure(&self) -> (r: Result<(), MessageValidationError>)
        ensures
            self@.valid_structure ==> r is Ok,
            !self@.valid_structure ==> r == Err::<(), MessageValidationError>(
                MessageValidationError::InvalidStructure(self@.field),
            ),
    {
        if self.valid_structure_ {
            Ok(())
        } else {
            Err(MessageValidationError::InvalidStructure(self.field_))
        }
    }

    /// Whether `tag` is a header field: a standard one, or one that the
    /// data dictionary's header defines.
    pub fn is_header_field(tag: Tag, data_dictionary: Option<&DataDictionary>) -> (r: bool)
        requires
            dd_wf(data_dictionary),
        ensures
            r == header_tag(tag, dd_view(data_dictionary)),
    {
        if tag == tags::BeginString || tag == tags::BodyLength || tag == tags::MsgType || tag
            == tags::SenderCompID || tag == tags::TargetCompID || tag == tags::OnBehalfOfCompID
            || tag == tags::DeliverToCompID || tag == tags::SecureDataLen || tag == tags::MsgSeqNum
            || tag == tags::SenderSubID || tag == tags::SenderLocationID || tag == tags::TargetSubID
            || tag == tags::TargetLocationID || tag == tags::OnBehalfOfSubID || tag
            == tags::OnBehalfOfLocationID || tag == tags::DeliverToSubID || tag
            == tags::DeliverToLocationID || tag == tags::PossDupFlag || tag == tags::PossResend
            || tag == tags::SendingTime || tag == tags::OrigSendingTime || tag == tags::XmlDataLen
            || tag == tags::XmlData || tag == tags::MessageEncoding || tag
            == tags::LastMsgSeqNumProcessed {
            return true;
        }
        match data_dictionary {
            Some(dd) => dd.is_header_field(tag),
            None => false,
        }
    }

    /// Whether `tag` is a trailer field: SignatureLength, Signature,
    /// CheckSum, or one that the data dictionary's trailer defines.
    pub fn is_trailer_field(tag: Tag, data_dictionary: Option<&DataDictionary>) -> (r: bool)
        requires
            dd_wf(data_dictionary),
        ensures
            r == trailer_tag(tag, dd_view(data_dictionary)),
    {
        if tag == tags::SignatureLength || tag == tags::Signature || tag == tags::CheckSum {
            return true;
        }
        match data_dictionary {
            Some(dd) => dd.is_trailer_field(tag),
            None => false,
        }
    }

    /// The body length: what the header, body and trailer add, modulo 2^32.
    #[verifier::spinoff_prover]
    #[verifier::rlimit(40)]
    fn body_length(&self) -> (r: u32)
        requires
            self.wf(),
        ensures
            r as nat == body_length_of(self@),
    {
        let h = self.header.0.len();
        let b = self.body.len();
        let t = self.trailer.0.len();
        let r = h.wrapping_add(b).wrapping_add(t);
        proof {
            vstd::arithmetic::div_mod::lemma_add_mod_noop(map_len(self@.header) as int, map_len(self@.body) as int, modulus() as int);
            vstd::arithmetic::div_mod::lemma_add_mod_noop(
                (map_len(self@.header) + map_len(self@.body)) as int,
                map_len(self@.trailer) as int,
                modulus() as int,
            );
        }
        r
    }

    /// The checksum: the sum of the bytes of the fields but CheckSum, modulo 256.
    #[verifier::spinoff_prover]
    #[verifier::rlimit(40)]
    fn checksum(&self) -> (r: u32)
        requires
            self.wf(),
        ensures
            r as nat == checksum_of(self@),
    {
        let h = self.header.0.calculate_total();
        let b = self.body.calculate_total();
        let t = self.trailer.0.calculate_total();
        let s = h.wrapping_add(b).wrapping_add(t);
        proof {
            let x = map_total(self@.header) as int;
            let y = map_total(self@.body) as int;
            let z = map_total(self@.trailer) as int;
            vstd::arithmetic::div_mod::lemma_add_mod_noop(x, y, modulus() as int);
            vstd::arithmetic::div_mod::lemma_add_mod_noop(x + y, z, modulus() as int);
            vstd::arithmetic::div_mod::lemma_mod_mod(x + y + z, 256, 0x100_0000);
            assert(256 * 0x100_0000 == modulus());
        }
        s % 256
    }

    /// Removes the fields and group entries of the header, body and
    /// trailer, and forgets the field met out of place.
    fn clear(&mut self)
        requires
            old(self).wf(),
        ensures
            final(self).wf(),
            final(self)@ == (MessageModel {
                header: MapModel { fields: Seq::empty(), groups: Seq::empty(), ..old(self)@.header },
                body: MapModel { fields: Seq::empty(), groups: Seq::empty(), ..old(self)@.body },
                trailer: MapModel { fields: Seq::empty(), groups: Seq::empty(), ..old(self)@.trailer },
                field: 0,
                ..old(self)@
            }),
    {
        self.field_ = 0;
        self.header.0.clear();
        self.body.clear();
        self.trailer.0.clear();
    }

    /// The message as text: the header, the body and the trailer. The body
    /// length and checksum are offered to the header with `Some(true)`,
    /// which leaves its fields as they are.
    pub fn to_string(&mut self) -> (r: String)
        requires
            old(self).wf(),
        ensures
            final(self).wf(),
            final(self)@ == old(self)@,
            r@ == message_text(old(self)@),
    {
        let len = crate::text::decimal_string(self.body_length() as u64);
        self.header.0.set_field_base(FieldBase::new(tags::BodyLength, len), Some(true));
        let checksum = crate::text::decimal_string(self.checksum() as u64);
        self.header.0.set_field_base(FieldBase::new(tags::CheckSum, checksum), Some(true));
        let h = self.header.calculate_string();
        let b = self.body.calculate_string(None);
        let t = self.trailer.calculate_string();
        let mut v: Vec<char> = Vec::new();
        push_str_chars(&mut v, h.as_str());
        push_str_chars(&mut v, b.as_str());
        push_str_chars(&mut v, t.as_str());
        string_from_chars(v.as_slice())
    }

    /// Whether the message is one of the session layer: its MsgType is set
    /// and is one of `0`, `A`, `1`, `2`, `3`, `4`, `5`.
    pub fn is_admin(&self) -> (r: bool)
        requires
            self.wf(),
        ensures
            r == match lookup(self@.header.fields, tags::MsgType) {
                Some(t) => is_admin_msg_type(t),
                None => false,
            },
    {
        if !self.header.0.is_field_set(tags::MsgType) {
            return false;
        }
        let t = self.header.0.get_field(tags::MsgType).value().as_str();
        str_eq(t, "0") || str_eq(t, "A") || str_eq(t, "1") || str_eq(t, "2") || str_eq(t, "3")
            || str_eq(t, "4") || str_eq(t, "5")
    }
}

/// The errors of reading a message.
#[derive(Debug, Clone)]
pub enum MessageParseError {
    InvalidMessage(String),
    FailedToConvertTagToInt(String),
    FailedToFindEqualsAt(usize),
    FailedToFindSohAt(usize),
    PosGreaterThanLen(usize, usize),
    RepeatedTagWithoutGroupDelimiterTagException(Tag, Tag),
    GroupDelimiterTagException(Tag, Tag),
    FieldMapError(FieldMapError),
}

/// What an error of reading a message holds.
pub enum ParseErrorModel {
    InvalidMessage(Seq<char>),
    FailedToConvertTagToInt(Seq<char>),
    FailedToFindEqualsAt(nat),
    FailedToFindSohAt(nat),
    PosGreaterThanLen(nat, nat),
    RepeatedTagWithoutGroupDelimiterTagException(u32, u32),
    GroupDelimiterTagException(u32, u32),
    FieldMapError(FieldMapError),
}

impl View for MessageParseError {
    type V = ParseErrorModel;

    open spec fn view(&self) -> ParseErrorModel {
        match self {
            MessageParseError::InvalidMessage(s) => ParseErrorModel::InvalidMessage(s@),
            MessageParseError::FailedToConvertTagToInt(s) => ParseErrorModel::FailedToConvertTagToInt(s@),
            MessageParseError::FailedToFindEqualsAt(p) => ParseErrorModel::FailedToFindEqualsAt(*p as nat),
            MessageParseError::FailedToFindSohAt(p) => ParseErrorModel::FailedToFindSohAt(*p as nat),
            MessageParseError::PosGreaterThanLen(a, b) => ParseErrorModel::PosGreaterThanLen(*a as nat, *b as nat),
            MessageParseError::RepeatedTagWithoutGroupDelimiterTagException(a, b) => ParseErrorModel::RepeatedTagWithoutGroupDelimiterTagException(*a, *b),
            MessageParseError::GroupDelimiterTagException(a, b) => ParseErrorModel::GroupDelimiterTagException(*a, *b),
            MessageParseError::FieldMapError(e) => ParseErrorModel::FieldMapError(*e),
        }
    }
}

impl From<FieldMapError> for MessageParseError {
    fn from(e: FieldMapError) -> (r: MessageParseError) {
        MessageParseError::FieldMapError(e)
    }
}

impl vstd::std_specs::convert::FromSpecImpl<FieldMapError> for MessageParseError {
    open spec fn obeys_from_spec() -> bool {
        true
    }

    open spec fn from_spec(v: FieldMapError) -> Self {
        MessageParseError::FieldMapError(v)
    }
}

/// The first index from `from` on at which `c` stands in `s`.
pub open spec fn find_char_from(s: Seq<char>, from: nat, c: char) -> Option<nat>
    decreases s.len() - from,
{
    if from >= s.len() {
        None
    } else if s[from as int] == c {
        Some(from)
    } else {
        find_char_from(s, from + 1, c)
    }
}

/// Reading the field that starts at `pos`: its tag up to the next `=`, its
/// value up to the next SOH, and the position after that SOH.
pub open spec fn extract(s: Seq<char>, pos: nat) -> Result<(u32, Seq<char>, nat), ParseErrorModel> {
    match find_char_from(s, pos, '=') {
        None => Err(ParseErrorModel::FailedToFindEqualsAt(pos)),
        Some(tagend) => {
            let tag_text = s.subrange(pos as int, tagend as int);
            match parse_unsigned(tag_text, u32::MAX as nat) {
                None => Err(ParseErrorModel::FailedToConvertTagToInt(tag_text)),
                Some(tag) => match find_char_from(s, tagend + 1, '\x01') {
                    None => Err(ParseErrorModel::FailedToFindSohAt(tagend + 1)),
                    Some(fieldend) => Ok(
                        (tag as u32, s.subrange(tagend + 1int, fieldend as int), fieldend + 1),
                    ),
                },
            }
        },
    }
}

/// An entry of a group that has just begun: no fields, its delimiter written first.
pub open spec fn new_entry(delim: u32) -> MapModel {
    MapModel { fields: Seq::empty(), groups: Seq::empty(), repeated: Seq::empty(), order: seq![delim] }
}

/// `map` with the entry `e` of the group counted by `counter` added, where there is one.
pub open spec fn with_entry(map: MapModel, counter: u32, delim: u32, e: Option<MapModel>) -> MapModel {
    match e {
        Some(m) => MapModel {
            groups: map.groups.push(GroupModel { field: counter, delim, map: m }),
            ..map
        },
        None => map,
    }
}

/// `m` with the field `tag` set to `value`.
pub open spec fn with_value(m: MapModel, tag: u32, value: Seq<char>) -> MapModel {
    MapModel { fields: crate::field_map::put_sorted(m.fields, tag, value), ..m }
}

/// Reading the entries of the group counted by `counter`, from `pos` on,
/// into `map`, `entry` being the entry being read. An entry begins at the
/// group's delimiter and ends at the next one; a field the group does not
/// define ends the group, which resumes at that field; the end of the text
/// ends it without its last entry, and it resumes at `start`. A field that
/// is a nested group's counter reads that group into the entry. `Err(None)`
/// stands where a message factory would be asked for an entry.
pub open spec fn read_group(
    s: Seq<char>,
    counter: u32,
    start: nat,
    pos: nat,
    map: MapModel,
    entry: Option<MapModel>,
    gdd: DDGroupModel,
    has_factory: bool,
) -> Result<(MapModel, nat), Option<ParseErrorModel>>
    decreases gdd, s.len() - pos,
{
    if pos >= s.len() {
        Ok((map, start))
    } else {
        match extract(s, pos) {
            Err(e) => Err(Some(e)),
            Ok(f) => {
                let tag = f.0;
                let next = f.2;
                if next <= pos || next > s.len() {
                    Ok((map, start))
                } else if tag == gdd.delim {
                    if has_factory {
                        Err(None)
                    } else {
                        read_group(
                            s,
                            counter,
                            start,
                            next,
                            with_entry(map, counter, gdd.delim, entry),
                            Some(new_entry(gdd.delim)),
                            gdd,
                            has_factory,
                        )
                    }
                } else if find_field(gdd.map.fields, tag) is None {
                    Ok((with_entry(map, counter, gdd.delim, entry), pos))
                } else {
                    match entry {
                        None => Err(Some(ParseErrorModel::GroupDelimiterTagException(counter, tag))),
                        Some(e) => if lookup(e.fields, tag) is Some {
                            Err(Some(ParseErrorModel::RepeatedTagWithoutGroupDelimiterTagException(counter, tag)))
                        } else {
                            let e1 = with_value(e, tag, f.1);
                            match find_group(gdd.map.groups, tag) {
                                None => read_group(s, counter, start, next, map, Some(e1), gdd, has_factory),
                                Some(nested) => {
                                    proof {
                                        let i = choose|i: int| 0 <= i < gdd.map.groups.len() && gdd.map.groups[i].0 == tag;
                                        assert(decreases_to!(gdd => gdd.map.groups[i].1));
                                    }
                                    match read_group(s, tag, next, next, e1, None, nested, has_factory) {
                                        Err(x) => Err(x),
                                        Ok(inner) => if pos < inner.1 <= s.len() {
                                            read_group(s, counter, start, inner.1, map, Some(inner.0), gdd, has_factory)
                                        } else {
                                            Ok((map, start))
                                        },
                                    }
                                },
                            }
                        },
                    }
                }
            },
        }
    }
}

/// Where the reading of a message stands.
pub struct ReadState {
    pub msg: MessageModel,
    /// The application dictionary's map of the message's type, once known.
    pub msg_map: Option<DDMapModel>,
    pub expecting_header: bool,
    pub expecting_body: bool,
    /// How many fields were read.
    pub count: nat,
    pub pos: nat,
}

/// The field and flag that record a field out of place.
pub open spec fn out_of_place(msg: MessageModel, tag: u32) -> MessageModel {
    MessageModel { field: if msg.field == 0 { tag } else { msg.field }, valid_structure: false, ..msg }
}

/// The state after a field of the header: set in the header (and the
/// message's type looked up where it is MsgType), its group read where the
/// session dictionary's header has one.
pub open spec fn after_header_field(
    s: Seq<char>,
    st: ReadState,
    tag: u32,
    value: Seq<char>,
    next: nat,
    sdd: Option<DataDictionaryModel>,
    add: Option<DataDictionaryModel>,
    has_factory: bool,
) -> Result<ReadState, Option<ParseErrorModel>> {
    let m0 = if !st.expecting_header {
        out_of_place(st.msg, tag)
    } else {
        st.msg
    };
    let msg_map = if tag == tags::MsgType {
        match add {
            Some(a) => find_message(a.messages, value),
            None => st.msg_map,
        }
    } else {
        st.msg_map
    };
    let header = with_value(m0.header, tag, value);
    let st1 = ReadState { msg: MessageModel { header, ..m0 }, msg_map, count: st.count + 1, pos: next, ..st };
    match sdd {
        Some(d) => match find_group(d.header.groups, tag) {
            Some(g) => match read_group(s, tag, next, next, header, None, g, has_factory) {
                Err(x) => Err(x),
                Ok(r) => Ok(ReadState { msg: MessageModel { header: r.0, ..st1.msg }, pos: r.1, ..st1 }),
            },
            None => Ok(st1),
        },
        None => Ok(st1),
    }
}

/// The state after a field of the trailer: set in the trailer, header and
/// body no longer expected, its group read where the session dictionary's
/// trailer has one.
pub open spec fn after_trailer_field(
    s: Seq<char>,
    st: ReadState,
    tag: u32,
    value: Seq<char>,
    next: nat,
    sdd: Option<DataDictionaryModel>,
    has_factory: bool,
) -> Result<ReadState, Option<ParseErrorModel>> {
    let trailer = with_value(st.msg.trailer, tag, value);
    let st1 = ReadState {
        msg: MessageModel { trailer, ..st.msg },
        expecting_header: false,
        expecting_body: false,
        count: st.count + 1,
        pos: next,
        ..st
    };
    match sdd {
        Some(d) => match find_group(d.trailer.groups, tag) {
            Some(g) => match read_group(s, tag, next, next, trailer, None, g, has_factory) {
                Err(x) => Err(x),
                Ok(r) => Ok(ReadState { msg: MessageModel { trailer: r.0, ..st1.msg }, pos: r.1, ..st1 }),
            },
            None => Ok(st1),
        },
        None => Ok(st1),
    }
}

/// The state after a field of the body: set in the body, the header no
/// longer expected, its group read where the message's map has one.
pub open spec fn after_body_field(
    s: Seq<char>,
    st: ReadState,
    tag: u32,
    value: Seq<char>,
    next: nat,
    has_factory: bool,
) -> Result<ReadState, Option<ParseErrorModel>> {
    let m0 = if !st.expecting_body {
        out_of_place(st.msg, tag)
    } else {
        st.msg
    };
    let body = with_value(m0.body, tag, value);
    let st1 = ReadState {
        msg: MessageModel { body, ..m0 },
        expecting_header: false,
        count: st.count + 1,
        pos: next,
        ..st
    };
    match st.msg_map {
        Some(mm) => match find_group(mm.groups, tag) {
            Some(g) => match read_group(s, tag, next, next, body, None, g, has_factory) {
                Err(x) => Err(x),
                Ok(r) => Ok(ReadState { msg: MessageModel { body: r.0, ..st1.msg }, pos: r.1, ..st1 }),
            },
            None => Ok(st1),
        },
        None => Ok(st1),
    }
}

/// The state after the field `tag=value` that ends before `next`: a
/// header, trailer or body field as the session dictionary says, a body
/// field skipped where `ignore_body` is set.
pub open spec fn read_step(
    s: Seq<char>,
    st: ReadState,
    tag: u32,
    value: Seq<char>,
    next: nat,
    sdd: Option<DataDictionaryModel>,
    add: Option<DataDictionaryModel>,
    has_factory: bool,
    ignore_body: bool,
) -> Result<ReadState, Option<ParseErrorModel>> {
    if header_tag(tag, sdd) {
        after_header_field(s, st, tag, value, next, sdd, add, has_factory)
    } else if trailer_tag(tag, sdd) {
        after_trailer_field(s, st, tag, value, next, sdd, has_factory)
    } else if !ignore_body {
        after_body_field(s, st, tag, value, next, has_factory)
    } else {
        Ok(ReadState { count: st.count + 1, pos: next, ..st })
    }
}

/// Reading the fields of a message from `st.pos` on: each is a header,
/// trailer or body field as the session dictionary says, checked against
/// the order BeginString, BodyLength, MsgType first where `validate` is set.
pub open spec fn read_fields(
    s: Seq<char>,
    st: ReadState,
    validate: bool,
    sdd: Option<DataDictionaryModel>,
    add: Option<DataDictionaryModel>,
    has_factory: bool,
    ignore_body: bool,
) -> Result<ReadState, Option<ParseErrorModel>>
    decreases s.len() - st.pos,
{
    if st.pos >= s.len() {
        Ok(st)
    } else {
        match extract(s, st.pos) {
            Err(e) => Err(Some(e)),
            Ok(f) => {
                let tag = f.0;
                let value = f.1;
                let next = f.2;
                if validate && st.count < 3 && header_field_order()[st.count as int] != tag {
                    Err(Some(ParseErrorModel::InvalidMessage("Header fields out of order"@)))
                } else {
                    match read_step(s, st, tag, value, next, sdd, add, has_factory, ignore_body) {
                        Err(x) => Err(x),
                        Ok(st2) => if st.pos < st2.pos <= s.len() {
                            read_fields(s, st2, validate, sdd, add, has_factory, ignore_body)
                        } else {
                            Ok(st)
                        },
                    }
                }
            },
        }
    }
}

/// What `get_int` gives for the field `tag` of `m`.
pub open spec fn int_field(m: MapModel, tag: u32) -> Result<u32, FieldMapError> {
    match lookup(m.fields, tag) {
        None => Err(FieldMapError::FieldNotFound(tag)),
        Some(v) => match parse_unsigned(v, u32::MAX as nat) {
            Some(n) => Ok(n as u32),
            None => Err(FieldMapError::IncorrectDataFormat(tag)),
        },
    }
}

/// The text of a mismatch: `Expected <what>=<expected>, Received
/// <what>=<received>, Message.SeqNum=<seq>`.
pub open spec fn mismatch_text(what: Seq<char>, expected: nat, received: nat, seq_num: nat) -> Seq<char> {
    "Expected "@ + what + "="@ + decimal(expected) + ", Received "@ + what + "="@ + decimal(received)
        + ", Message.SeqNum="@ + decimal(seq_num)
}

/// The check that a read message's BodyLength and CheckSum are right.
pub open spec fn validate_spec(m: MessageModel) -> Result<(), ParseErrorModel> {
    match int_field(m.header, tags::BodyLength) {
        Err(e) => Err(ParseErrorModel::FieldMapError(e)),
        Ok(received) => if body_length_of(m) != received as nat {
            match int_field(m.header, tags::MsgSeqNum) {
                Err(e) => Err(ParseErrorModel::FieldMapError(e)),
                Ok(seq) => Err(
                    ParseErrorModel::InvalidMessage(
                        mismatch_text("BodyLength"@, body_length_of(m), received as nat, seq as nat),
                    ),
                ),
            }
        } else {
            match int_field(m.trailer, tags::CheckSum) {
                Err(e) => Err(ParseErrorModel::FieldMapError(e)),
                Ok(received_checksum) => if checksum_of(m) != received_checksum as nat {
                    match int_field(m.header, tags::MsgSeqNum) {
                        Err(e) => Err(ParseErrorModel::FieldMapError(e)),
                        Ok(seq) => Err(
                            ParseErrorModel::InvalidMessage(
                                mismatch_text(
                                    "CheckSum"@,
                                    checksum_of(m),
                                    received_checksum as nat,
                                    seq as nat,
                                ),
                            ),
                        ),
                    }
                } else {
                    Ok(())
                },
            }
        },
    }
}

/// A message as `clear` leaves it, with `add` as its application dictionary.
pub open spec fn cleared(m: MessageModel, add: Option<DataDictionaryModel>) -> MessageModel {
    MessageModel {
        header: MapModel { fields: Seq::empty(), groups: Seq::empty(), ..m.header },
        body: MapModel { fields: Seq::empty(), groups: Seq::empty(), ..m.body },
        trailer: MapModel { fields: Seq::empty(), groups: Seq::empty(), ..m.trailer },
        field: 0,
        application_data_dictionary: add,
        ..m
    }
}

/// Reading a message from `s` into `m`: the message cleared, its fields
/// read, then checked where `validate` is set.
pub open spec fn read_message(
    m: MessageModel,
    s: Seq<char>,
    validate: bool,
    sdd: Option<DataDictionaryModel>,
    add: Option<DataDictionaryModel>,
    has_factory: bool,
    ignore_body: bool,
) -> Result<MessageModel, Option<ParseErrorModel>> {
    let st0 = ReadState {
        msg: cleared(m, add),
        msg_map: None,
        expecting_header: true,
        expecting_body: true,
        count: 0,
        pos: 0,
    };
    finish_read(read_fields(s, st0, validate, sdd, add, has_factory, ignore_body), validate)
}

/// A message read with `validate` set holds in its BodyLength the length of
/// its fields and in its CheckSum their checksum: a reading that succeeds
/// gives a message whose header's BodyLength is `body_length_of` it and
/// whose trailer's CheckSum is `checksum_of` it.
pub proof fn law_validated_read_is_consistent(
    m: MessageModel,
    s: Seq<char>,
    sdd: Option<DataDictionaryModel>,
    add: Option<DataDictionaryModel>,
    has_factory: bool,
    ignore_body: bool,
)
    ensures
        read_message(m, s, true, sdd, add, has_factory, ignore_body) matches Ok(r) ==> {
            &&& int_field(r.header, tags::BodyLength) matches Ok(n) && n as nat == body_length_of(r)
            &&& int_field(r.trailer, tags::CheckSum) matches Ok(c) && c as nat == checksum_of(r)
        },
{
    reveal(finish_read);
}

/// The message that a reading gives, checked where `validate` is set.
#[verifier::opaque]
pub open spec fn finish_read(r: Result<ReadState, Option<ParseErrorModel>>, validate: bool) -> Result<
    MessageModel,
    Option<ParseErrorModel>,
> {
    match r {
        Err(x) => Err(x),
        Ok(st) => if validate {
            match validate_spec(st.msg) {
                Err(e) => Err(Some(e)),
                Ok(_) => Ok(st.msg),
            }
        } else {
            Ok(st.msg)
        },
    }
}

/// The fields of the entry being read, where there is one.
pub open spec fn entry_of(g: Option<Group>) -> Option<MapModel> {
    match g {
        Some(x) => Some(x@.map),
        None => None,
    }
}

/// The first index from `from` on at which `c` stands in `cs`.
pub(crate) fn find_char(cs: &Vec<char>, from: usize, c: char) -> (r: Option<usize>)
    ensures
        r matches Some(i) ==> find_char_from(cs@, from as nat, c) == Some(i as nat) && from <= i
            < cs@.len(),
        r is None ==> find_char_from(cs@, from as nat, c) is None,
{
    let mut i: usize = from;
    while i < cs.len()
        invariant
            from <= i || from >= cs@.len(),
            find_char_from(cs@, from as nat, c) == find_char_from(cs@, i as nat, c),
        decreases cs.len() - i,
    {
        if cs[i] == c {
            return Some(i);
        }
        i = i + 1;
    }
    None
}

/// The characters of `cs` from `a` up to `b`.
pub(crate) fn chars_range(cs: &Vec<char>, a: usize, b: usize) -> (r: Vec<char>)
    requires
        a <= b <= cs@.len(),
    ensures
        r@ == cs@.subrange(a as int, b as int),
{
    let mut r: Vec<char> = Vec::new();
    let mut i: usize = a;
    while i < b
        invariant
            a <= i <= b,
            b <= cs@.len(),
            r@ == cs@.subrange(a as int, i as int),
        decreases b - i,
    {
        r.push(cs[i]);
        assert(cs@.subrange(a as int, i + 1) =~= cs@.subrange(a as int, i as int).push(cs@[i as int]));
        i = i + 1;
    }
    r
}

impl Message {
    /// Reads the field that starts at `pos`: its tag up to the next `=`,
    /// its value up to the next SOH; gives the field and the position after
    /// that SOH.
    fn extract_field(cs: &Vec<char>, pos: usize) -> (r: Result<(FieldBase, usize), MessageParseError>)
        ensures
            match extract(cs@, pos as nat) {
                Err(e) => r matches Err(x) && x@ == e,
                Ok(f) => r matches Ok(p) && p.0@ == (f.0, f.1) && p.1 == f.2 && pos < p.1 <= cs@.len(),
            },
    {
        let n = cs.len();
        let tagend = match find_char(cs, pos, '=') {
            None => {
                return Err(MessageParseError::FailedToFindEqualsAt(pos));
            },
            Some(t) => t,
        };
        let tag_chars = chars_range(cs, pos, tagend);
        let tag = match parse_unsigned_chars(tag_chars.as_slice(), 0xffff_ffffu128) {
            None => {
                return Err(MessageParseError::FailedToConvertTagToInt(string_from_chars(tag_chars.as_slice())));
            },
            Some(t) => t as u32,
        };
        let start = tagend + 1;
        let fieldend = match find_char(cs, start, '\x01') {
            None => {
                return Err(MessageParseError::FailedToFindSohAt(start));
            },
            Some(e) => e,
        };
        let value = chars_range(cs, start, fieldend);
        Ok((FieldBase::new(tag, string_from_chars(value.as_slice())), fieldend + 1))
    }

    /// Reads the entries of the group counted by `counter` from `pos` on
    /// into `map`, as `read_group` says; gives where reading resumes.
    fn set_group(
        counter: Tag,
        cs: &Vec<char>,
        pos: usize,
        map: &mut FieldMap,
        group_dd: &DDGroup,
        has_factory: bool,
    ) -> (r: Result<usize, MessageParseError>)
        requires
            old(map).wf(),
            group_dd.entry().wf(),
            pos <= cs@.len(),
            read_group(cs@, counter, pos as nat, pos as nat, old(map)@, None, group_dd@, has_factory) != Err::<
                (MapModel, nat),
                Option<ParseErrorModel>,
            >(None),
        ensures
            final(map).wf(),
            match read_group(cs@, counter, pos as nat, pos as nat, old(map)@, None, group_dd@, has_factory) {
                Ok(res) => r matches Ok(p) && final(map)@ == res.0 && p == res.1 && pos <= p <= cs@.len(),
                Err(e) => r matches Err(x) && e == Some(x@),
            },
        decreases group_dd.entry().depth(),
    {
        let ghost gdd = group_dd@;
        let ghost target = read_group(cs@, counter, pos as nat, pos as nat, old(map)@, None, gdd, has_factory);
        let delim = group_dd.delim();
        let mut p: usize = pos;
        let mut group: Option<Group> = None;
        while p < cs.len()
            invariant
                map.wf(),
                group_dd.entry().wf(),
                gdd == group_dd@,
                delim == gdd.delim,
                pos <= p <= cs@.len(),
                target != Err::<(MapModel, nat), Option<ParseErrorModel>>(None),
                target == read_group(cs@, counter, pos as nat, pos as nat, old(map)@, None, gdd, has_factory),
                match group {
                    Some(g) => g@.field == counter && g@.delim == delim && g.entry().wf(),
                    None => true,
                },
                target == read_group(cs@, counter, pos as nat, p as nat, map@, entry_of(group), gdd, has_factory),
            decreases cs.len() - p,
        {
            let grp_pos = p;
            let (f, next) = match Message::extract_field(cs, p) {
                Err(e) => {
                    return Err(e);
                },
                Ok(x) => x,
            };
            let tag = f.tag();
            proof {
                assert(extract(cs@, p as nat) is Ok);
                assert(target == read_group(cs@, counter, pos as nat, p as nat, map@, entry_of(group), gdd, has_factory));
            }
            if tag == delim {
                if has_factory {
                    proof {
                        assert(false);
                    }
                    return Ok(grp_pos);
                }
                match group {
                    Some(g) => {
                        map.add_group(tag, &g, Some(false));
                    },
                    None => {},
                }
                group = Some(Group::new(counter, delim));
                p = next;
            } else if !group_dd.map().is_field(tag) {
                match group {
                    Some(g) => {
                        map.add_group(tag, &g, Some(false));
                    },
                    None => {},
                }
                return Ok(grp_pos);
            } else {
                match group {
                    None => {
                        return Err(MessageParseError::GroupDelimiterTagException(counter, tag));
                    },
                    Some(mut g) => {
                        if g.map().is_field_set(tag) {
                            return Err(MessageParseError::RepeatedTagWithoutGroupDelimiterTagException(counter, tag));
                        }
                        g.map_mut().set_field_base(f, None);
                        match group_dd.map().get_group(tag) {
                            None => {
                                p = next;
                            },
                            Some(nested) => {
                                let q = match Message::set_group(tag, cs, next, g.map_mut(), nested, has_factory) {
                                    Err(e) => {
                                        return Err(e);
                                    },
                                    Ok(q) => q,
                                };
                                p = q;
                            },
                        }
                        group = Some(g);
                    },
                }
            }
        }
        Ok(pos)
    }
}

proof fn lemma_read_group_no_factory(
    s: Seq<char>,
    counter: u32,
    start: nat,
    pos: nat,
    map: MapModel,
    entry: Option<MapModel>,
    gdd: DDGroupModel,
)
    ensures
        read_group(s, counter, start, pos, map, entry, gdd, false) != Err::<(MapModel, nat), Option<ParseErrorModel>>(None),
    decreases gdd, s.len() - pos,
{
    if pos < s.len() {
        if let Ok(f) = extract(s, pos) {
            let tag = f.0;
            let next = f.2;
            if next <= pos || next > s.len() {
            } else if tag == gdd.delim {
                lemma_read_group_no_factory(s, counter, start, next, with_entry(map, counter, gdd.delim, entry), Some(new_entry(gdd.delim)), gdd);
            } else if find_field(gdd.map.fields, tag) is None {
            } else if let Some(e) = entry {
                if lookup(e.fields, tag) is None {
                    let e1 = with_value(e, tag, f.1);
                    match find_group(gdd.map.groups, tag) {
                        None => {
                            lemma_read_group_no_factory(s, counter, start, next, map, Some(e1), gdd);
                        },
                        Some(nested) => {
                            let i = choose|i: int| 0 <= i < gdd.map.groups.len() && gdd.map.groups[i].0 == tag;
                            assert(decreases_to!(gdd => gdd.map.groups[i].1));
                            lemma_read_group_no_factory(s, tag, next, next, e1, None, nested);
                            if let Ok(inner) = read_group(s, tag, next, next, e1, None, nested, false) {
                                if pos < inner.1 <= s.len() {
                                    lemma_read_group_no_factory(s, counter, start, inner.1, map, Some(inner.0), gdd);
                                }
                            }
                        },
                    }
                }
            }
        }
    }
}

proof fn lemma_read_fields_no_factory(
    s: Seq<char>,
    st: ReadState,
    validate: bool,
    sdd: Option<DataDictionaryModel>,
    add: Option<DataDictionaryModel>,
    ignore_body: bool,
)
    ensures
        read_fields(s, st, validate, sdd, add, false, ignore_body) != Err::<ReadState, Option<ParseErrorModel>>(None),
    decreases s.len() - st.pos,
{
    if st.pos < s.len() {
        if let Ok(f) = extract(s, st.pos) {
            let tag = f.0;
            let value = f.1;
            let next = f.2;
            if !(validate && st.count < 3 && header_field_order()[st.count as int] != tag) {
                let step = if header_tag(tag, sdd) {
                    after_header_field(s, st, tag, value, next, sdd, add, false)
                } else if trailer_tag(tag, sdd) {
                    after_trailer_field(s, st, tag, value, next, sdd, false)
                } else if !ignore_body {
                    after_body_field(s, st, tag, value, next, false)
                } else {
                    Ok(ReadState { count: st.count + 1, pos: next, ..st })
                };
                if header_tag(tag, sdd) {
                    if let Some(d) = sdd {
                        if let Some(g) = find_group(d.header.groups, tag) {
                            let m0 = if !st.expecting_header { out_of_place(st.msg, tag) } else { st.msg };
                            lemma_read_group_no_factory(s, tag, next, next, with_value(m0.header, tag, value), None, g);
                        }
                    }
                } else if trailer_tag(tag, sdd) {
                    if let Some(d) = sdd {
                        if let Some(g) = find_group(d.trailer.groups, tag) {
                            lemma_read_group_no_factory(s, tag, next, next, with_value(st.msg.trailer, tag, value), None, g);
                        }
                    }
                } else if !ignore_body {
                    if let Some(mm) = st.msg_map {
                        if let Some(g) = find_group(mm.groups, tag) {
                            let m0 = if !st.expecting_body { out_of_place(st.msg, tag) } else { st.msg };
                            lemma_read_group_no_factory(s, tag, next, next, with_value(m0.body, tag, value), None, g);
                        }
                    }
                }
                if let Ok(st2) = step {
                    if st.pos < st2.pos <= s.len() {
                        lemma_read_fields_no_factory(s, st2, validate, sdd, add, ignore_body);
                    }
                }
            }
        }
    }
}

/// A reading that fails gives its error.
pub proof fn lemma_finish_read_err(r: Result<ReadState, Option<ParseErrorModel>>, validate: bool)
    requires
        r is Err,
    ensures
        finish_read(r, validate) == match r {
            Err(x) => Err::<MessageModel, Option<ParseErrorModel>>(x),
            Ok(_) => Err::<MessageModel, Option<ParseErrorModel>>(None),
        },
{
    reveal(finish_read);
}

/// A reading that succeeds gives its message, checked where `validate` is set.
pub proof fn lemma_finish_read_ok(st: ReadState, validate: bool)
    ensures
        finish_read(Ok(st), validate) == if validate {
            match validate_spec(st.msg) {
                Err(e) => Err(Some(e)),
                Ok(_) => Ok(st.msg),
            }
        } else {
            Ok::<MessageModel, Option<ParseErrorModel>>(st.msg)
        },
{
    reveal(finish_read);
}

/// Without a message factory, reading a message never stops for one.
pub proof fn lemma_read_message_no_factory(
    m: MessageModel,
    s: Seq<char>,
    validate: bool,
    sdd: Option<DataDictionaryModel>,
    add: Option<DataDictionaryModel>,
    ignore_body: bool,
)
    ensures
        read_message(m, s, validate, sdd, add, false, ignore_body) != Err::<MessageModel, Option<ParseErrorModel>>(None),
{
    let st0 = ReadState {
        msg: cleared(m, add),
        msg_map: None,
        expecting_header: true,
        expecting_body: true,
        count: 0,
        pos: 0,
    };
    lemma_read_fields_no_factory(s, st0, validate, sdd, add, ignore_body);
    reveal(finish_read);
}

/// The text of a mismatch: `Expected <what>=<expected>, Received
/// <what>=<received>, Message.SeqNum=<seq>`.
fn mismatch_message(what: &str, expected: u32, received: u32, seq_num: u32) -> (r: String)
    ensures
        r@ == mismatch_text(what@, expected as nat, received as nat, seq_num as nat),
{
    let mut v: Vec<char> = Vec::new();
    push_str_chars(&mut v, "Expected ");
    push_str_chars(&mut v, what);
    push_str_chars(&mut v, "=");
    let e = crate::text::decimal_string(expected as u64);
    push_str_chars(&mut v, e.as_str());
    push_str_chars(&mut v, ", Received ");
    push_str_chars(&mut v, what);
    push_str_chars(&mut v, "=");
    let r = crate::text::decimal_string(received as u64);
    push_str_chars(&mut v, r.as_str());
    push_str_chars(&mut v, ", Message.SeqNum=");
    let q = crate::text::decimal_string(seq_num as u64);
    push_str_chars(&mut v, q.as_str());
    assert(v@ =~= mismatch_text(what@, expected as nat, received as nat, seq_num as nat));
    string_from_chars(v.as_slice())
}

impl Message {
    /// Checks that the header's BodyLength and the trailer's CheckSum are
    /// those of the message.
    fn validate(&self) -> (r: Result<(), MessageParseError>)
        requires
            self.wf(),
        ensures
            match validate_spec(self@) {
                Ok(_) => r is Ok,
                Err(e) => r matches Err(x) && x@ == e,
            },
    {
        let received_body_length = match self.header.0.get_int(tags::BodyLength) {
            Err(e) => {
                return Err(MessageParseError::FieldMapError(e));
            },
            Ok(v) => v,
        };
        let body_length = self.body_length();
        if body_length != received_body_length {
            let seq = match self.header.0.get_int(tags::MsgSeqNum) {
                Err(e) => {
                    return Err(MessageParseError::FieldMapError(e));
                },
                Ok(v) => v,
            };
            return Err(MessageParseError::InvalidMessage(mismatch_message("BodyLength", body_length, received_body_length, seq)));
        }
        let received_checksum = match self.trailer.0.get_int(tags::CheckSum) {
            Err(e) => {
                return Err(MessageParseError::FieldMapError(e));
            },
            Ok(v) => v,
        };
        let checksum = self.checksum();
        if checksum != received_checksum {
            let seq = match self.header.0.get_int(tags::MsgSeqNum) {
                Err(e) => {
                    return Err(MessageParseError::FieldMapError(e));
                },
                Ok(v) => v,
            };
            return Err(MessageParseError::InvalidMessage(mismatch_message("CheckSum", checksum, received_checksum, seq)));
        }
        Ok(())
    }
}

/// The view of the map of the message's type, once known.
pub open spec fn map_view(m: Option<&DDMap>) -> Option<DDMapModel> {
    match m {
        Some(x) => Some(x@),
        None => None,
    }
}

impl Message {
    /// Reads a message from its text into `self`, which is cleared first:
    /// each field goes to the header, the trailer or the body as the
    /// session dictionary says (the body's fields are skipped where
    /// `ignore_body` is set), repeating groups are read as the dictionaries
    /// define them, and where `validate` is set the first three fields must
    /// be BeginString, BodyLength and MsgType and the BodyLength and
    /// CheckSum must be right. The text must be ASCII; with a message
    /// factory, no group entry may begin.
    #[verifier::spinoff_prover]
    #[verifier::rlimit(40)]
    pub fn from_string(
        &mut self,
        msgstr: &str,
        validate: bool,
        session_dd: Option<&DataDictionary>,
        app_dd: Option<&DataDictionary>,
        msg_factory: Option<&Box<dyn MessageFactory>>,
        ignore_body: bool,
    ) -> (r: Result<(), MessageParseError>)
        requires
            old(self).wf(),
            dd_wf(session_dd),
            dd_wf(app_dd),
            crate::text::all_ascii(msgstr@),
            msg_factory is None || read_message(
                old(self)@,
                msgstr@,
                validate,
                dd_view(session_dd),
                dd_view(app_dd),
                true,
                ignore_body,
            ) != Err::<MessageModel, Option<ParseErrorModel>>(None),
        ensures
            final(self).wf(),
            match read_message(
                old(self)@,
                msgstr@,
                validate,
                dd_view(session_dd),
                dd_view(app_dd),
                msg_factory is Some,
                ignore_body,
            ) {
                Ok(m) => r is Ok && final(self)@ == m,
                Err(e) => r matches Err(x) && e == Some(x@),
            },
    {
        let has_factory = msg_factory.is_some();
        let ghost sdd = dd_view(session_dd);
        let ghost add = dd_view(app_dd);
        let ghost target = read_message(old(self)@, msgstr@, validate, sdd, add, has_factory, ignore_body);
        proof {
            if !has_factory {
                lemma_read_message_no_factory(old(self)@, msgstr@, validate, sdd, add, ignore_body);
            }
        }
        self.application_data_dictionary = match app_dd {
            Some(d) => Some(d.duplicate()),
            None => None,
        };
        self.clear();
        let cs = crate::text::str_chars(msgstr);
        let order = header_field_order_vec();
        let mut expecting_header = true;
        let mut expecting_body = true;
        let mut count: usize = 0;
        let mut pos: usize = 0;
        let mut msg_map: Option<&DDMap> = None;
        let ghost fields_target = read_fields(
            cs@,
            ReadState { msg: self@, msg_map: None, expecting_header: true, expecting_body: true, count: 0, pos: 0 },
            validate,
            sdd,
            add,
            has_factory,
            ignore_body,
        );
        proof {
            assert(self@ == cleared(old(self)@, add));
            assert(target == finish_read(fields_target, validate));
            if fields_target == Err::<ReadState, Option<ParseErrorModel>>(None) {
                lemma_finish_read_err(fields_target, validate);
            }
        }
        while pos < cs.len()
            invariant
                self.wf(),
                dd_wf(session_dd),
                dd_wf(app_dd),
                sdd == dd_view(session_dd),
                add == dd_view(app_dd),
                cs@ == msgstr@,
                order@ == header_field_order(),
                has_factory == msg_factory is Some,
                count <= pos <= cs@.len(),
                match msg_map {
                    Some(m) => m.wf(),
                    None => true,
                },
                fields_target != Err::<ReadState, Option<ParseErrorModel>>(None),
                target == finish_read(fields_target, validate),
                target == read_message(old(self)@, msgstr@, validate, sdd, add, has_factory, ignore_body),
                fields_target == read_fields(
                    cs@,
                    ReadState {
                        msg: self@,
                        msg_map: map_view(msg_map),
                        expecting_header,
                        expecting_body,
                        count: count as nat,
                        pos: pos as nat,
                    },
                    validate,
                    sdd,
                    add,
                    has_factory,
                    ignore_body,
                ),
            decreases cs.len() - pos,
        {
            let ghost st = ReadState {
                msg: self@,
                msg_map: map_view(msg_map),
                expecting_header,
                expecting_body,
                count: count as nat,
                pos: pos as nat,
            };
            let (f, next) = match Message::extract_field(&cs, pos) {
                Err(e) => {
                    proof {
                        lemma_finish_read_err(fields_target, validate);
                    }
                    return Err(e);
                },
                Ok(x) => x,
            };
            let tag = f.tag();
            let ghost value = f@.1;
            if validate && count < 3 && order[count] != tag {
                proof {
                    lemma_finish_read_err(fields_target, validate);
                }
                return Err(MessageParseError::InvalidMessage("Header fields out of order".to_owned()));
            }
            let ghost step = read_step(cs@, st, tag, value, next as nat, sdd, add, has_factory, ignore_body);
            proof {
                assert(fields_target == match step {
                    Err(x) => Err(x),
                    Ok(st2) => if st.pos < st2.pos <= cs@.len() {
                        read_fields(cs@, st2, validate, sdd, add, has_factory, ignore_body)
                    } else {
                        Ok(st)
                    },
                });
                if step == Err::<ReadState, Option<ParseErrorModel>>(None) {
                    assert(false);
                }
            }
            let r = if Message::is_header_field(tag, session_dd) {
                self.header_step(&cs, f, next, session_dd, app_dd, &mut msg_map, expecting_header, has_factory, Ghost(st))
            } else if Message::is_trailer_field(tag, session_dd) {
                expecting_header = false;
                expecting_body = false;
                self.trailer_step(&cs, f, next, session_dd, has_factory, Ghost(st))
            } else if !ignore_body {
                let r = self.body_step(&cs, f, next, msg_map, expecting_body, has_factory, Ghost(st));
                expecting_header = false;
                r
            } else {
                Ok(next)
            };
            match r {
                Err(e) => {
                    proof {
                        lemma_finish_read_err(fields_target, validate);
                    }
                    return Err(e);
                },
                Ok(q) => {
                    pos = q;
                },
            }
            count = count + 1;
            proof {
                let st2 = ReadState {
                    msg: self@,
                    msg_map: map_view(msg_map),
                    expecting_header,
                    expecting_body,
                    count: count as nat,
                    pos: pos as nat,
                };
                assert(step == Ok::<ReadState, Option<ParseErrorModel>>(st2));
            }
        }
        proof {
            let st_end = ReadState {
                msg: self@,
                msg_map: map_view(msg_map),
                expecting_header,
                expecting_body,
                count: count as nat,
                pos: pos as nat,
            };
            assert(fields_target == Ok::<ReadState, Option<ParseErrorModel>>(st_end));
            lemma_finish_read_ok(st_end, validate);
        }
        if validate {
            match self.validate() {
                Err(e) => {
                    return Err(e);
                },
                Ok(()) => {},
            }
        }
        Ok(())
    }
}


impl Message {
    /// Reads a header field, as `after_header_field` says.
    fn header_step<'a>(
        &mut self,
        cs: &Vec<char>,
        f: FieldBase,
        next: usize,
        session_dd: Option<&DataDictionary>,
        app_dd: Option<&'a DataDictionary>,
        msg_map: &mut Option<&'a DDMap>,
        expecting_header: bool,
        has_factory: bool,
        Ghost(st): Ghost<ReadState>,
    ) -> (r: Result<usize, MessageParseError>)
        requires
            old(self).wf(),
            dd_wf(session_dd),
            dd_wf(app_dd),
            match *old(msg_map) {
                Some(m) => m.wf(),
                None => true,
            },
            st.msg == old(self)@,
            st.msg_map == map_view(*old(msg_map)),
            st.expecting_header == expecting_header,
            next <= cs@.len(),
            after_header_field(cs@, st, f@.0, f@.1, next as nat, dd_view(session_dd), dd_view(app_dd), has_factory)
                != Err::<ReadState, Option<ParseErrorModel>>(None),
        ensures
            final(self).wf(),
            match *final(msg_map) {
                Some(m) => m.wf(),
                None => true,
            },
            match after_header_field(cs@, st, f@.0, f@.1, next as nat, dd_view(session_dd), dd_view(app_dd), has_factory) {
                Ok(st2) => r matches Ok(p) && p == st2.pos && next <= p <= cs@.len() && final(self)@ == st2.msg
                    && map_view(*final(msg_map)) == st2.msg_map,
                Err(x) => r matches Err(e) && x == Some(e@),
            },
    {
        let tag = f.tag();
        if !expecting_header {
            if self.field_ == 0 {
                self.field_ = tag;
            }
            self.valid_structure_ = false;
        }
        if tag == tags::MsgType {
            match app_dd {
                Some(a) => {
                    *msg_map = a.get_map_for_message(f.value().as_str());
                },
                None => {},
            }
        }
        self.header.0.set_field_base(f, Some(false));
        match session_dd {
            Some(dd) => {
                match dd.header().get_group(tag) {
                    Some(g) => {
                        Message::set_group(tag, cs, next, &mut self.header.0, g, has_factory)
                    },
                    None => Ok(next),
                }
            },
            None => Ok(next),
        }
    }

    /// Reads a trailer field, as `after_trailer_field` says.
    fn trailer_step(
        &mut self,
        cs: &Vec<char>,
        f: FieldBase,
        next: usize,
        session_dd: Option<&DataDictionary>,
        has_factory: bool,
        Ghost(st): Ghost<ReadState>,
    ) -> (r: Result<usize, MessageParseError>)
        requires
            old(self).wf(),
            dd_wf(session_dd),
            st.msg == old(self)@,
            next <= cs@.len(),
            after_trailer_field(cs@, st, f@.0, f@.1, next as nat, dd_view(session_dd), has_factory)
                != Err::<ReadState, Option<ParseErrorModel>>(None),
        ensures
            final(self).wf(),
            match after_trailer_field(cs@, st, f@.0, f@.1, next as nat, dd_view(session_dd), has_factory) {
                Ok(st2) => r matches Ok(p) && p == st2.pos && next <= p <= cs@.len() && final(self)@ == st2.msg,
                Err(x) => r matches Err(e) && x == Some(e@),
            },
    {
        let tag = f.tag();
        self.trailer.0.set_field_base(f, Some(false));
        match session_dd {
            Some(dd) => {
                match dd.trailer().get_group(tag) {
                    Some(g) => {
                        Message::set_group(tag, cs, next, &mut self.trailer.0, g, has_factory)
                    },
                    None => Ok(next),
                }
            },
            None => Ok(next),
        }
    }

    /// Reads a body field, as `after_body_field` says.
    fn body_step(
        &mut self,
        cs: &Vec<char>,
        f: FieldBase,
        next: usize,
        msg_map: Option<&DDMap>,
        expecting_body: bool,
        has_factory: bool,
        Ghost(st): Ghost<ReadState>,
    ) -> (r: Result<usize, MessageParseError>)
        requires
            old(self).wf(),
            match msg_map {
                Some(m) => m.wf(),
                None => true,
            },
            st.msg == old(self)@,
            st.msg_map == map_view(msg_map),
            st.expecting_body == expecting_body,
            next <= cs@.len(),
            after_body_field(cs@, st, f@.0, f@.1, next as nat, has_factory)
                != Err::<ReadState, Option<ParseErrorModel>>(None),
        ensures
            final(self).wf(),
            match after_body_field(cs@, st, f@.0, f@.1, next as nat, has_factory) {
                Ok(st2) => r matches Ok(p) && p == st2.pos && next <= p <= cs@.len() && final(self)@ == st2.msg,
                Err(x) => r matches Err(e) && x == Some(e@),
            },
    {
        let tag = f.tag();
        if !expecting_body {
            if self.field_ == 0 {
                self.field_ = tag;
            }
            self.valid_structure_ = false;
        }
        self.body.set_field_base(f, Some(false));
        match msg_map {
            Some(mm) => {
                match mm.get_group(tag) {
                    Some(g) => {
                        Message::set_group(tag, cs, next, &mut self.body, g, has_factory)
                    },
                    None => Ok(next),
                }
            },
            None => Ok(next),
        }
    }
}

} // verus!
