//! Session settings as plain values: read from an INI-like text with a
//! `[DEFAULT]` section followed by `[SESSION]` sections, each session's
//! values completed by the default ones, and kept as they were written.
use vstd::prelude::*;

use crate::session::session_id::SessionId;
use crate::session::settings::builder::ref_view;
use crate::session::settings::setting::comp_score;
use crate::session::settings::{setting_named, setting_of, setting_slot, slot_of, ReadState, SettingOption};
use crate::text::{chars_eq_ignore_case, eq_ignore_case, lines_of, str_eq, string_from_chars, text_lines, trim_chars, trimmed, unbracketed};

verus! {

/// The number of settings a session keeps.
pub const SETTING_COUNT: usize = 68;

/// The place where a session keeps the value of the setting `o`: that of
/// its dynamic settings, then the SSL settings.
pub open spec fn setting_index(o: SettingOption) -> nat {
    match setting_slot(o) {
        Some(i) => i,
        None => match o {
            SettingOption::SSLEnable => 59,
            SettingOption::SSLServerName => 60,
            SettingOption::SSLProtocols => 61,
            SettingOption::SSLValidateCertificates => 62,
            SettingOption::SSLCheckCertificateRevocation => 63,
            SettingOption::SSLCertificate => 64,
            SettingOption::SSLCertificatePassword => 65,
            SettingOption::SSLRequireClientCertificate => 66,
            _ => 67,
        },
    }
}

/// The place where a session keeps the value of the setting `o`.
pub fn index_of_setting(o: SettingOption) -> (r: usize)
    ensures
        r == setting_index(o),
        r < SETTING_COUNT,
{
    match slot_of(o) {
        Some(i) => i,
        None => match o {
            SettingOption::SSLEnable => 59,
            SettingOption::SSLServerName => 60,
            SettingOption::SSLProtocols => 61,
            SettingOption::SSLValidateCertificates => 62,
            SettingOption::SSLCheckCertificateRevocation => 63,
            SettingOption::SSLCertificate => 64,
            SettingOption::SSLCertificatePassword => 65,
            SettingOption::SSLRequireClientCertificate => 66,
            _ => 67,
        },
    }
}

/// The values of a session's settings, as written, one place per setting.
#[derive(Debug, Clone, PartialEq, Eq)]
pub struct SessionSetting {
    values: Vec<Option<String>>,
}

pub open spec fn values_of(v: Seq<Option<String>>) -> Seq<Option<Seq<char>>> {
    v.map_values(|o: Option<String>| crate::session::settings::builder::opt_view(o))
}

impl View for SessionSetting {
    type V = Seq<Option<Seq<char>>>;

    closed spec fn view(&self) -> Seq<Option<Seq<char>>> {
        values_of(self.values@)
    }
}

/// No value set.
pub open spec fn unset_values() -> Seq<Option<Seq<char>>> {
    Seq::new(SETTING_COUNT as nat, |i: int| None)
}

/// The value of the setting `o` among `v`.
pub open spec fn value_in(v: Seq<Option<Seq<char>>>, o: SettingOption) -> Option<Seq<char>> {
    v[setting_index(o) as int]
}

/// The values of `a`, completed by those of `b` where `a` has none; whether
/// a session is dynamic is never taken from `b`.
pub open spec fn merged_values(a: Seq<Option<Seq<char>>>, b: Seq<Option<Seq<char>>>) -> Seq<Option<Seq<char>>> {
    Seq::new(
        a.len(),
        |i: int| if i == setting_index(SettingOption::IsDynamic) as int || a[i] is Some { a[i] } else { b[i] },
    )
}

/// The value of the setting `o` among `v`, or nothing where it is unset.
pub open spec fn text_in(v: Seq<Option<Seq<char>>>, o: SettingOption) -> Seq<char> {
    match value_in(v, o) {
        Some(x) => x,
        None => Seq::empty(),
    }
}

/// Completing a session's values by default ones never changes whether
/// the session is dynamic, keeps every other value that is set, and takes
/// the default where none is.
pub proof fn law_merge_keeps_dynamic(a: Seq<Option<Seq<char>>>, b: Seq<Option<Seq<char>>>, o: SettingOption)
    requires
        a.len() == SETTING_COUNT,
        b.len() == SETTING_COUNT,
    ensures
        value_in(merged_values(a, b), SettingOption::IsDynamic) == value_in(a, SettingOption::IsDynamic),
        value_in(a, o) is Some ==> value_in(merged_values(a, b), o) == value_in(a, o),
        o != SettingOption::IsDynamic && value_in(a, o) is None ==> value_in(merged_values(a, b), o) == value_in(b, o),
{
    lemma_setting_index_bounds(o);
    lemma_setting_index_bounds(SettingOption::IsDynamic);
    lemma_setting_index_distinct(o, SettingOption::IsDynamic);
}

/// Each setting has its own place.
proof fn lemma_setting_index_distinct(a: SettingOption, b: SettingOption)
    ensures
        a != b ==> setting_index(a) != setting_index(b),
{
}

proof fn lemma_setting_index_bounds(o: SettingOption)
    ensures
        setting_index(o) < SETTING_COUNT,
{
}

/// Why a text of settings is refused; `TooManyEquals` stands for a line
/// with more than one `=`, which cannot be read.
pub enum ReadFailure {
    NoSuchSetting(Seq<char>),
    NoDefaultSection,
    DefaultSectionAlreadyDefined,
    TooManyEquals,
}

/// What reading the line `line` does to the values `v`: a line without `=`
/// changes nothing; a line `name=value` sets the setting named `name`.
pub open spec fn line_values(v: Seq<Option<Seq<char>>>, line: Seq<char>) -> Result<Seq<Option<Seq<char>>>, ReadFailure> {
    match crate::text::first_index(line, '=') {
        None => Ok(v),
        Some(i) => {
            let name = line.subrange(0, i);
            let rest = line.subrange(i + 1, line.len() as int);
            if crate::text::first_index(rest, '=') is Some {
                Err(ReadFailure::TooManyEquals)
            } else {
                match setting_named(name) {
                    None => Err(ReadFailure::NoSuchSetting(name)),
                    Some(o) => Ok(v.update(setting_index(o) as int, Some(rest))),
                }
            }
        },
    }
}

/// The section being read, completed by the default values and added to
/// the sessions.
pub open spec fn push_values(st: ReadState) -> ReadState {
    match st.last {
        None => st,
        Some(v) => ReadState {
            sessions: st.sessions.push(
                match st.default {
                    Some(d) => merged_values(v, d),
                    None => v,
                },
            ),
            ..st
        },
    }
}

/// One line read: a comment is skipped; `[DEFAULT]` begins the default
/// section, once; `[SESSION]` ends the default section or the session
/// before it; any other line sets a value of the section being read, and
/// lines before the default section are skipped.
pub open spec fn read_value_line(st: ReadState, line: Seq<char>) -> Result<ReadState, ReadFailure> {
    let t = trimmed(line);
    let u = unbracketed(t);
    let is_default = eq_ignore_case(u, "default"@);
    let is_session = eq_ignore_case(u, "session"@);
    if t.len() > 0 && t[0] == '#' {
        Ok(st)
    } else if !st.default_started && !st.default_ended && is_default {
        Ok(ReadState { last: Some(unset_values()), default_started: true, ..st })
    } else if st.default_started && is_default {
        Err(ReadFailure::DefaultSectionAlreadyDefined)
    } else if st.default_started && !st.default_ended && is_session {
        Ok(ReadState { default: st.last, last: Some(unset_values()), default_ended: true, ..st })
    } else if st.default_started && st.default_ended && is_session {
        Ok(ReadState { last: Some(unset_values()), ..push_values(st) })
    } else {
        match st.last {
            Some(v) => match line_values(v, t) {
                Ok(w) => Ok(ReadState { last: Some(w), ..st }),
                Err(f) => Err(f),
            },
            None => Ok(st),
        }
    }
}

/// The lines read in turn.
pub open spec fn read_value_lines(lines: Seq<Seq<char>>) -> Result<ReadState, ReadFailure>
    decreases lines.len(),
{
    if lines.len() == 0 {
        Ok(ReadState { default_started: false, default_ended: false, last: None, default: None, sessions: Seq::empty() })
    } else {
        match read_value_lines(lines.drop_last()) {
            Err(e) => Err(e),
            Ok(st) => read_value_line(st, lines.last()),
        }
    }
}

/// The default values and the values of the sessions that the text `s`
/// describes, or why it is refused.
pub open spec fn values_outcome(s: Seq<char>) -> Result<
    (Seq<Option<Seq<char>>>, Seq<Seq<Option<Seq<char>>>>),
    ReadFailure,
> {
    match read_value_lines(text_lines(s)) {
        Err(e) => Err(e),
        Ok(st) => {
            let f = if st.default_started && st.default_ended {
                push_values(st)
            } else {
                st
            };
            match f.default {
                None => Err(ReadFailure::NoDefaultSection),
                Some(d) => Ok((d, f.sessions)),
            }
        },
    }
}

/// Why settings cannot be read.
#[derive(Debug)]
pub enum SessionSettingsError {
    NoSuchSetting(String),
    IoError(std::io::Error),
    NoDefaultSection,
    DefaultSectionAlreadyDefined,
}

/// Whether `e` is the error that `f` describes.
pub open spec fn read_failure_is(e: SessionSettingsError, f: ReadFailure) -> bool {
    match f {
        ReadFailure::NoSuchSetting(name) => e matches SessionSettingsError::NoSuchSetting(s) && s@ == name,
        ReadFailure::NoDefaultSection => e is NoDefaultSection,
        ReadFailure::DefaultSectionAlreadyDefined => e is DefaultSectionAlreadyDefined,
        ReadFailure::TooManyEquals => false,
    }
}

/// 6 for `*`, 7 for an equal comp id, 0 otherwise or where none is set.
pub open spec fn comp_value_score(o: Option<Seq<char>>, id: Seq<char>) -> nat {
    match o {
        Some(x) => comp_score(x, id),
        None => 0,
    }
}

/// 1 for an equal id, 0 otherwise or where none is set.
pub open spec fn id_value_score(o: Option<Seq<char>>, id: Seq<char>) -> nat {
    match o {
        Some(x) => if x == id {
            1
        } else {
            0
        },
        None => 0,
    }
}

/// How well the identity `id` matches the values `v`: 7 for each comp id
/// that is equal (6 where the value is `*`), 1 for each sub or location id
/// that is equal, counting only the ids that are set; a match below 12
/// counts 0.
pub open spec fn values_score(v: Seq<Option<Seq<char>>>, id: SessionId) -> nat {
    let s = comp_value_score(value_in(v, SettingOption::SenderCompID), id.sender_comp_id@) + id_value_score(
        value_in(v, SettingOption::SenderSubID),
        id.sender_sub_id@,
    ) + id_value_score(value_in(v, SettingOption::SenderLocationID), id.sender_location_id@) + comp_value_score(
        value_in(v, SettingOption::TargetCompID),
        id.target_comp_id@,
    ) + id_value_score(value_in(v, SettingOption::TargetSubID), id.target_sub_id@) + id_value_score(
        value_in(v, SettingOption::TargetLocationID),
        id.target_location_id@,
    );
    if s < 12 {
        0
    } else {
        s
    }
}

fn comp_value_score_of(o: Option<&String>, id: &str) -> (r: u16)
    ensures
        r == comp_value_score(ref_view(o), id@),
{
    match o {
        Some(x) => if str_eq(x.as_str(), "*") {
            6
        } else if str_eq(x.as_str(), id) {
            7
        } else {
            0
        },
        None => 0,
    }
}

fn id_value_score_of(o: Option<&String>, id: &str) -> (r: u16)
    ensures
        r == id_value_score(ref_view(o), id@),
{
    match o {
        Some(x) => if str_eq(x.as_str(), id) {
            1
        } else {
            0
        },
        None => 0,
    }
}

impl SessionSetting {
    /// A place for each setting.
    pub closed spec fn wf(self) -> bool {
        self.values@.len() == SETTING_COUNT
    }

    /// The value of the setting `o`.
    pub fn get(&self, o: SettingOption) -> (r: Option<&String>)
        requires
            self.wf(),
        ensures
            ref_view(r) == value_in(self@, o),
            self@.len() == SETTING_COUNT,
    {
        self.values[index_of_setting(o)].as_ref()
    }

    /// Sets the setting `option` to `value`.
    pub fn set(&mut self, option: SettingOption, value: &str)
        requires
            old(self).wf(),
        ensures
            final(self).wf(),
            final(self)@ == old(self)@.update(setting_index(option) as int, Some(value@)),
    {
        let k = index_of_setting(option);
        let ghost before = self@;
        self.values.set(k, Some(value.to_owned()));
        assert(self@ =~= before.update(k as int, Some(value@)));
    }

    /// Reads a line `name=value` into the values; a line without `=` is
    /// left aside.
    pub fn set_from_line(&mut self, line: &str) -> (r: Result<(), SessionSettingsError>)
        requires
            old(self).wf(),
            !(line_values(old(self)@, line@) matches Err(ReadFailure::TooManyEquals)),
        ensures
            final(self).wf(),
            match line_values(old(self)@, line@) {
                Ok(v) => r is Ok && final(self)@ == v,
                Err(f) => r matches Err(e) && read_failure_is(e, f) && final(self)@ == old(self)@,
            },
    {
        let cs = crate::text::str_chars(line);
        let i = match crate::text::index_of(cs.as_slice(), '=') {
            None => {
                return Ok(());
            },
            Some(i) => i,
        };
        proof {
            crate::text::lemma_first_index_bounds(cs@, '=');
        }
        let name = crate::message::chars_range(&cs, 0, i);
        let rest = crate::message::chars_range(&cs, i + 1, cs.len());
        let name_string = string_from_chars(name.as_slice());
        match setting_of(name_string.as_str()) {
            None => Err(SessionSettingsError::NoSuchSetting(name_string)),
            Some(o) => {
                let value_string = string_from_chars(rest.as_slice());
                self.set(o, value_string.as_str());
                Ok(())
            },
        }
    }

    /// The values, completed by those of `other` where they have none; whether
    /// the session is dynamic is never taken from `other`.
    pub fn merge(self, other: &Self) -> (r: Self)
        requires
            self.wf(),
            other.wf(),
        ensures
            r.wf(),
            r@ == merged_values(self@, other@),
    {
        let ghost before = self@;
        let dynamic_index = index_of_setting(SettingOption::IsDynamic);
        let mut values = self.values;
        let mut i: usize = 0;
        while i < SETTING_COUNT
            invariant
                i <= SETTING_COUNT,
                values@.len() == SETTING_COUNT,
                other.values@.len() == SETTING_COUNT,
                before.len() == SETTING_COUNT,
                dynamic_index == setting_index(SettingOption::IsDynamic),
                forall|k: int| 0 <= k < i ==> values_of(values@)[k] == merged_values(before, other@)[k],
                forall|k: int| i <= k < SETTING_COUNT ==> values_of(values@)[k] == before[k],
            decreases SETTING_COUNT - i,
        {
            if i != dynamic_index && values[i].is_none() {
                let ghost prev = values_of(values@);
                let v = match &other.values[i] {
                    Some(s) => Some(s.clone()),
                    None => None,
                };
                values.set(i, v);
                proof {
                    assert(values_of(values@) =~= prev.update(
                        i as int,
                        crate::session::settings::builder::opt_view(v),
                    ));
                }
            }
            i = i + 1;
        }
        let r = SessionSetting { values };
        assert(r@ =~= merged_values(before, other@));
        r
    }

    /// How well `session_id` matches the values (see `values_score`).
    pub fn score(&self, session_id: &SessionId) -> (r: u16)
        requires
            self.wf(),
        ensures
            r == values_score(self@, *session_id),
    {
        let mut score: u16 = comp_value_score_of(self.get(SettingOption::SenderCompID), session_id.sender_comp_id.as_str());
        score = score + id_value_score_of(self.get(SettingOption::SenderSubID), session_id.sender_sub_id.as_str());
        score = score + id_value_score_of(
            self.get(SettingOption::SenderLocationID),
            session_id.sender_location_id.as_str(),
        );
        score = score + comp_value_score_of(self.get(SettingOption::TargetCompID), session_id.target_comp_id.as_str());
        score = score + id_value_score_of(self.get(SettingOption::TargetSubID), session_id.target_sub_id.as_str());
        score = score + id_value_score_of(
            self.get(SettingOption::TargetLocationID),
            session_id.target_location_id.as_str(),
        );
        if score < 12 {
            0
        } else {
            score
        }
    }

    /// Whether the session is dynamic: IsDynamic is `Y`, and the sender or
    /// the target comp id is `*`.
    pub fn is_dynamic(&self) -> (r: bool)
        requires
            self.wf(),
        ensures
            r == (value_in(self@, SettingOption::IsDynamic) == Some("Y"@) && (value_in(
                self@,
                SettingOption::SenderCompID,
            ) == Some("*"@) || value_in(self@, SettingOption::TargetCompID) == Some("*"@))),
    {
        let d = match self.get(SettingOption::IsDynamic) {
            Some(v) => str_eq(v.as_str(), "Y"),
            None => false,
        };
        let s = match self.get(SettingOption::SenderCompID) {
            Some(v) => str_eq(v.as_str(), "*"),
            None => false,
        };
        let t = match self.get(SettingOption::TargetCompID) {
            Some(v) => str_eq(v.as_str(), "*"),
            None => false,
        };
        d && (s || t)
    }

    fn text_or_empty(&self, o: SettingOption) -> (r: &str)
        requires
            self.wf(),
        ensures
            r@ == text_in(self@, o),
    {
        proof {
            reveal_strlit("");
        }
        match self.get(o) {
            Some(v) => v.as_str(),
            None => "",
        }
    }

    /// The identity of the session, with the ids that are not set empty.
    pub fn session_id(&self) -> (r: SessionId)
        requires
            self.wf(),
        ensures
            r.begin_string@ == text_in(self@, SettingOption::BeginString),
            r.sender_comp_id@ == text_in(self@, SettingOption::SenderCompID),
            r.sender_sub_id@ == text_in(self@, SettingOption::SenderSubID),
            r.sender_location_id@ == text_in(self@, SettingOption::SenderLocationID),
            r.target_comp_id@ == text_in(self@, SettingOption::TargetCompID),
            r.target_sub_id@ == text_in(self@, SettingOption::TargetSubID),
            r.target_location_id@ == text_in(self@, SettingOption::TargetLocationID),
    {
        SessionId::new(
            self.text_or_empty(SettingOption::BeginString),
            self.text_or_empty(SettingOption::SenderCompID),
            self.text_or_empty(SettingOption::SenderSubID),
            self.text_or_empty(SettingOption::SenderLocationID),
            self.text_or_empty(SettingOption::TargetCompID),
            self.text_or_empty(SettingOption::TargetSubID),
            self.text_or_empty(SettingOption::TargetLocationID),
        )
    }
}

impl Default for SessionSetting {
    fn default() -> (r: Self)
        ensures
            r@ == unset_values(),
            r.wf(),
    {
        let mut values: Vec<Option<String>> = Vec::new();
        let mut i: usize = 0;
        while i < SETTING_COUNT
            invariant
                i <= SETTING_COUNT,
                values@.len() == i,
                forall|k: int| 0 <= k < i ==> (#[trigger] values@[k]) is None,
            decreases SETTING_COUNT - i,
        {
            values.push(None);
            i = i + 1;
        }
        let r = SessionSetting { values };
        assert(r@ =~= unset_values());
        r
    }
}

/// The default values and the values of each session, completed by the
/// default ones, in the order of their sections.
#[derive(Debug, Clone)]
pub struct SessionSettings {
    pub default: SessionSetting,
    pub sessions: Vec<SessionSetting>,
}

impl Default for SessionSettings {
    fn default() -> (r: Self)
        ensures
            r.default@ == unset_values(),
            r.default.wf(),
            r.sessions@.len() == 0,
    {
        SessionSettings { default: SessionSetting::default(), sessions: Vec::new() }
    }
}

pub open spec fn settings_wf(o: Option<SessionSetting>) -> bool {
    match o {
        Some(s) => s.wf(),
        None => true,
    }
}

impl SessionSettings {
    /// The default values and those of each session have a place for each setting.
    pub open spec fn wf(self) -> bool {
        &&& self.default.wf()
        &&& forall|i: int| 0 <= i < self.sessions@.len() ==> (#[trigger] self.sessions@[i]).wf()
    }
}

pub open spec fn setting_values(o: Option<SessionSetting>) -> Option<Seq<Option<Seq<char>>>> {
    match o {
        Some(s) => Some(s@),
        None => None,
    }
}

proof fn lemma_read_value_lines_step(lines: Seq<Seq<char>>, i: int)
    requires
        0 <= i < lines.len(),
    ensures
        read_value_lines(lines.take(i + 1)) == match read_value_lines(lines.take(i)) {
            Err(e) => Err(e),
            Ok(st) => read_value_line(st, lines[i]),
        },
{
    assert(lines.take(i + 1).drop_last() =~= lines.take(i));
}

proof fn lemma_read_value_lines_error(lines: Seq<Seq<char>>, j: int)
    requires
        0 <= j <= lines.len(),
        read_value_lines(lines.take(j)) is Err,
    ensures
        read_value_lines(lines) == read_value_lines(lines.take(j)),
    decreases lines.len(),
{
    if j == lines.len() {
        assert(lines.take(j) =~= lines);
    } else {
        assert(lines.drop_last().take(j) =~= lines.take(j));
        lemma_read_value_lines_error(lines.drop_last(), j);
    }
}

/// Whether the line `cs` holds more than one `=`.
fn two_equals(cs: &Vec<char>) -> (r: bool)
    ensures
        r == (match crate::text::first_index(cs@, '=') {
            Some(i) => crate::text::first_index(cs@.subrange(i + 1, cs@.len() as int), '=') is Some,
            None => false,
        }),
{
    let sl = cs.as_slice();
    let n = cs.len();
    match crate::text::index_of(sl, '=') {
        None => false,
        Some(i) => {
            proof {
                crate::text::lemma_first_index_bounds(cs@, '=');
                assert(sl@ == cs@);
                assert(i < cs@.len());
                assert(i < n);
            }
            let rest = crate::message::chars_range(cs, i + 1, n);
            crate::text::index_of(rest.as_slice(), '=').is_some()
        },
    }
}

impl SessionSettings {
    /// The settings that the text `string` describes: a `[DEFAULT]` section
    /// whose values complete those of the `[SESSION]` sections after it. No
    /// line that sets a value may hold more than one `=`.
    pub fn from_string(string: &str) -> (r: Result<Self, SessionSettingsError>)
        requires
            !(values_outcome(string@) matches Err(ReadFailure::TooManyEquals)),
        ensures
            match values_outcome(string@) {
                Ok((d, vs)) => r matches Ok(s) && s.wf() && s.default@ == d && s.sessions@.map_values(|x: SessionSetting| x@)
                    == vs,
                Err(f) => r matches Err(e) && read_failure_is(e, f),
            },
    {
        match Self::parse(string) {
            Some(r) => r,
            None => Err(SessionSettingsError::NoDefaultSection),
        }
    }

    /// The settings that the text `string` describes, as `from_string`
    /// reads them; none where a line that sets a value holds more than one
    /// `=`, which cannot be read.
    pub fn parse(string: &str) -> (r: Option<Result<Self, SessionSettingsError>>)
        ensures
            match values_outcome(string@) {
                Ok((d, vs)) => r matches Some(Ok(s)) && s.wf() && s.default@ == d && s.sessions@.map_values(
                    |x: SessionSetting| x@,
                ) == vs,
                Err(ReadFailure::TooManyEquals) => r is None,
                Err(f) => r matches Some(Err(e)) && read_failure_is(e, f),
            },
    {
        let ghost all = text_lines(string@);
        let lines = lines_of(string);
        let default_name = crate::text::str_chars("default");
        let session_name = crate::text::str_chars("session");
        let mut default_started = false;
        let mut default_ended = false;
        let mut last: Option<SessionSetting> = None;
        let mut default: Option<SessionSetting> = None;
        let mut settings: Vec<SessionSetting> = Vec::new();
        let mut i: usize = 0;
        assert(all.take(0) =~= Seq::<Seq<char>>::empty());
        assert(settings@.map_values(|x: SessionSetting| x@) =~= Seq::<Seq<Option<Seq<char>>>>::empty());
        while i < lines.len()
            invariant
                0 <= i <= lines@.len(),
                all == text_lines(string@),
                lines@.len() == all.len(),
                forall|k: int| 0 <= k < lines@.len() ==> (#[trigger] lines@[k])@ == all[k],
                default_name@ == "default"@,
                session_name@ == "session"@,
                settings_wf(last),
                settings_wf(default),
                forall|k: int| 0 <= k < settings@.len() ==> (#[trigger] settings@[k]).wf(),
                read_value_lines(all.take(i as int)) == Ok::<ReadState, ReadFailure>(
                    ReadState {
                        default_started,
                        default_ended,
                        last: setting_values(last),
                        default: setting_values(default),
                        sessions: settings@.map_values(|x: SessionSetting| x@),
                    },
                ),
            decreases lines@.len() - i,
        {
            proof {
                lemma_read_value_lines_step(all, i as int);
            }
            let t = trim_chars(lines[i].as_slice(), true);
            let u = trim_chars(t.as_slice(), false);
            let is_default = chars_eq_ignore_case(u.as_slice(), default_name.as_slice());
            let is_session = chars_eq_ignore_case(u.as_slice(), session_name.as_slice());
            let ghost before = settings@;
            if t.len() > 0 && t[0] == '#' {
            } else if !default_started && !default_ended && is_default {
                last = Some(SessionSetting::default());
                default_started = true;
            } else if default_started && is_default {
                proof {
                    lemma_read_value_lines_error(all, i + 1);
                }
                return Some(Err(SessionSettingsError::DefaultSectionAlreadyDefined));
            } else if default_started && !default_ended && is_session {
                default = last;
                last = Some(SessionSetting::default());
                default_ended = true;
            } else if default_started && default_ended && is_session {
                let prev = last;
                last = Some(SessionSetting::default());
                match prev {
                    Some(value) => {
                        let s = match &default {
                            Some(d) => value.merge(d),
                            None => value,
                        };
                        settings.push(s);
                        assert(settings@.map_values(|x: SessionSetting| x@) =~= before.map_values(
                            |x: SessionSetting| x@,
                        ).push(s@));
                    },
                    None => {},
                }
            } else {
                let cur = last;
                match cur {
                    Some(mut b) => {
                        let line = string_from_chars(t.as_slice());
                        if two_equals(&t) {
                            proof {
                                lemma_read_value_lines_error(all, i + 1);
                            }
                            return None;
                        }
                        let res = b.set_from_line(line.as_str());
                        last = Some(b);
                        match res {
                            Ok(()) => {},
                            Err(e) => {
                                proof {
                                    lemma_read_value_lines_error(all, i + 1);
                                }
                                return Some(Err(e));
                            },
                        }
                    },
                    None => {
                        last = None;
                    },
                }
            }
            i = i + 1;
        }
        assert(all.take(i as int) =~= all);
        if default_started && default_ended {
            match last {
                Some(value) => {
                    let ghost before = settings@;
                    let s = match &default {
                        Some(d) => value.merge(d),
                        None => value,
                    };
                    settings.push(s);
                    assert(settings@.map_values(|x: SessionSetting| x@) =~= before.map_values(
                        |x: SessionSetting| x@,
                    ).push(s@));
                },
                None => {},
            }
        }
        match default {
            None => Some(Err(SessionSettingsError::NoDefaultSection)),
            Some(d) => Some(Ok(SessionSettings { default: d, sessions: settings })),
        }
    }

    /// The default values.
    pub fn default_settings(&self) -> (r: &SessionSetting)
        ensures
            r@ == self.default@,
            r.wf() == self.default.wf(),
    {
        &self.default
    }

    /// The values of the session that best match `session_id`: of those
    /// whose score is positive, the last with the highest score; none where
    /// every score is 0.
    pub fn for_session_id(&self, session_id: &SessionId) -> (r: Option<&SessionSetting>)
        requires
            self.wf(),
        ensures
            match r {
                None => forall|j: int|
                    0 <= j < self.sessions@.len() ==> values_score(#[trigger] self.sessions@[j]@, *session_id) == 0,
                Some(s) => exists|i: int|
                    0 <= i < self.sessions@.len() && *s == self.sessions@[i] && values_score(
                        #[trigger] self.sessions@[i]@,
                        *session_id,
                    ) > 0 && (forall|j: int|
                        0 <= j < self.sessions@.len() ==> values_score(self.sessions@[j]@, *session_id)
                            <= values_score(self.sessions@[i]@, *session_id)) && (forall|j: int|
                        i < j < self.sessions@.len() ==> values_score(self.sessions@[j]@, *session_id)
                            < values_score(self.sessions@[i]@, *session_id)),
            },
    {
        let mut best: Option<usize> = None;
        let mut best_score: u16 = 0;
        let mut i: usize = 0;
        while i < self.sessions.len()
            invariant
                i <= self.sessions@.len(),
                self.wf(),
                match best {
                    None => best_score == 0 && forall|j: int|
                        0 <= j < i ==> values_score(#[trigger] self.sessions@[j]@, *session_id) == 0,
                    Some(b) => b < i && best_score == values_score(self.sessions@[b as int]@, *session_id)
                        && best_score > 0 && (forall|j: int|
                        0 <= j < i ==> values_score(#[trigger] self.sessions@[j]@, *session_id) <= best_score)
                        && (forall|j: int|
                        b < j < i ==> values_score(#[trigger] self.sessions@[j]@, *session_id) < best_score),
                },
            decreases self.sessions@.len() - i,
        {
            let sc = self.sessions[i].score(session_id);
            if sc > 0 && sc >= best_score {
                best = Some(i);
                best_score = sc;
            }
            i = i + 1;
        }
        match best {
            None => None,
            Some(b) => {
                assert(values_score(self.sessions@[b as int]@, *session_id) > 0);
                Some(&self.sessions[b])
            },
        }
    }

    /// The values of the sessions.
    pub fn sessions(&self) -> (r: &Vec<SessionSetting>)
        ensures
            r@ == self.sessions@,
    {
        &self.sessions
    }
}

} // verus!
