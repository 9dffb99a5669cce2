//! Request and response shapes for the SMS endpoints: message sending with
//! scheduling, rate limiting and regional requirements, text preview, and
//! delivery-report queries.

use vstd::prelude::*;

use crate::validation::{
    char_len, check_url, eq_token, is_wellformed_url, issue_views, str_eq, Constraint,
    ValidationErrors, ValidationIssue,
};
use crate::wire::{
    elem_views, field_views, json_int, json_int_string, json_str, json_string, names_of,
    opt_i32_field, opt_str_field, push_field, render_arr, render_array, render_obj, render_object,
    DecodeError, WireField,
};

verus! {

/// The fixed vocabulary of language codes a preview may name.
pub open spec fn is_language_code(s: Seq<char>) -> bool {
    ||| s == "TR"@
    ||| s == "ES"@
    ||| s == "PT"@
    ||| s == "AUTODETECT"@
}

/// Whether the string is one of the accepted language codes.
pub fn check_language_code(s: &String) -> (r: bool)
    ensures
        r == is_language_code(s@),
{
    eq_token(s, "TR") || eq_token(s, "ES") || eq_token(s, "PT") || eq_token(s, "AUTODETECT")
}

/// The fixed vocabulary of transliteration hints.
pub open spec fn is_transliteration(s: Seq<char>) -> bool {
    ||| s == "TURKISH"@
    ||| s == "GREEK"@
    ||| s == "CYRILLIC"@
    ||| s == "SERBIAN_CYRILLIC"@
    ||| s == "CENTRAL_EUROPEAN"@
    ||| s == "BALTIC"@
    ||| s == "NON_UNICODE"@
}

/// Whether the string is one of the accepted transliteration hints.
pub fn check_transliteration(s: &String) -> (r: bool)
    ensures
        r == is_transliteration(s@),
{
    eq_token(s, "TURKISH") || eq_token(s, "GREEK") || eq_token(s, "CYRILLIC") || eq_token(
        s,
        "SERBIAN_CYRILLIC",
    ) || eq_token(s, "CENTRAL_EUROPEAN") || eq_token(s, "BALTIC") || eq_token(s, "NON_UNICODE")
}

/// The fixed vocabulary of recipient-type codes for the Turkish registry.
pub open spec fn is_turkey_recipient_type(s: Seq<char>) -> bool {
    ||| s == "TACIR"@
    ||| s == "BIREYSEL"@
}

/// Whether the string is one of the accepted recipient-type codes.
pub fn check_turkey_recipient_type(s: &String) -> (r: bool)
    ensures
        r == is_turkey_recipient_type(s@),
{
    eq_token(s, "TACIR") || eq_token(s, "BIREYSEL")
}

/// One recipient of a message.
#[derive(Clone, Debug, PartialEq, Eq)]
pub struct Destination {
    /// The identifier this message gets for this recipient.
    pub message_id: Option<String>,

    /// The recipient's phone number.
    pub to: String,
}

impl Destination {
    pub fn new(to: String) -> (r: Self)
        ensures
            r.to@ == to@,
            r.message_id is None,
    {
        Destination { message_id: None, to }
    }

    /// Every violation the destination holds.
    pub open spec fn issues(self) -> Seq<(Seq<char>, Constraint)> {
        crate::validation::violation_when(self.to@.len() < 1, "to"@, Constraint::LengthMin(1))
    }

    /// The recipient address must be non-empty.
    pub open spec fn valid(self) -> bool {
        self.to@.len() >= 1
    }

    /// Appends every violation to the caller's list.
    pub fn collect_issues(&self, out: &mut Vec<ValidationIssue>)
        ensures
            issue_views(final (out)@) == issue_views(old(out)@) + self.issues(),
    {
        if char_len(&self.to) < 1 {
            out.push(ValidationIssue { field: "to", constraint: Constraint::LengthMin(1) });
        }
        proof {
            assert(issue_views(out@) =~= issue_views(old(out)@) + self.issues());
        }
    }

    pub fn validate(&self) -> (r: Result<(), ValidationErrors>)
        ensures
            r.is_ok() <==> self.valid(),
            r matches Err(e) ==> e@ == self.issues(),
    {
        let mut issues: Vec<ValidationIssue> = Vec::new();
        self.collect_issues(&mut issues);
        proof {
            assert(issue_views(issues@) =~= self.issues());
        }
        if issues.len() == 0 {
            Ok(())
        } else {
            Err(ValidationErrors { issues })
        }
    }
}

/// A day of the week on which delivery is allowed.
#[allow(non_camel_case_types)]
#[derive(Clone, Copy, Debug, Eq, PartialEq, Ord, PartialOrd, Hash)]
pub enum DeliveryDay {
    MONDAY,
    TUESDAY,
    WEDNESDAY,
    THURSDAY,
    FRIDAY,
    SATURDAY,
    SUNDAY,
}

/// A delivery-time bound: an hour of day and a minute within the hour.
#[derive(Clone, Copy, Debug, PartialEq, Eq)]
pub struct DeliveryTime {
    pub hour: i32,
    pub minute: i32,
}

impl DeliveryTime {
    pub fn new(hour: i32, minute: i32) -> (r: Self)
        ensures
            r.hour == hour,
            r.minute == minute,
    {
        DeliveryTime { hour, minute }
    }

    /// Every violation the time holds.
    pub open spec fn issues(self) -> Seq<(Seq<char>, Constraint)> {
        crate::validation::violation_when(self.hour < 0, "hour"@, Constraint::RangeMin(0))
            + crate::validation::violation_when(self.hour > 23, "hour"@, Constraint::RangeMax(23))
            + crate::validation::violation_when(self.minute < 0, "minute"@, Constraint::RangeMin(0))
            + crate::validation::violation_when(
            self.minute > 59,
            "minute"@,
            Constraint::RangeMax(59),
        )
    }

    /// The time names a real wall-clock minute.
    pub open spec fn valid(self) -> bool {
        0 <= self.hour <= 23 && 0 <= self.minute <= 59
    }

    /// Appends every violation to the caller's list.
    pub fn collect_issues(&self, out: &mut Vec<ValidationIssue>)
        ensures
            issue_views(final (out)@) == issue_views(old(out)@) + self.issues(),
    {
        if self.hour < 0 {
            out.push(ValidationIssue { field: "hour", constraint: Constraint::RangeMin(0) });
        }
        if self.hour > 23 {
            out.push(ValidationIssue { field: "hour", constraint: Constraint::RangeMax(23) });
        }
        if self.minute < 0 {
            out.push(ValidationIssue { field: "minute", constraint: Constraint::RangeMin(0) });
        }
        if self.minute > 59 {
            out.push(ValidationIssue { field: "minute", constraint: Constraint::RangeMax(59) });
        }
        proof {
            assert(issue_views(out@) =~= issue_views(old(out)@) + self.issues());
        }
    }

    pub fn validate(&self) -> (r: Result<(), ValidationErrors>)
        ensures
            r.is_ok() <==> self.valid(),
            r matches Err(e) ==> e@ == self.issues(),
    {
        let mut issues: Vec<ValidationIssue> = Vec::new();
        self.collect_issues(&mut issues);
        proof {
            assert(issue_views(issues@) =~= self.issues());
        }
        if issues.len() == 0 {
            Ok(())
        } else {
            Err(ValidationErrors { issues })
        }
    }
}

/// The window within which delivery is allowed: a non-empty set of days and
/// optional times of day.
#[derive(Clone, Debug, PartialEq, Eq)]
pub struct DeliveryTimeWindow {
    /// Days on which delivery is allowed; at least one is required.
    pub days: Vec<DeliveryDay>,

    /// The earliest time of day to deliver.
    pub from: Option<DeliveryTime>,

    /// The latest time of day to deliver.
    pub to: Option<DeliveryTime>,
}

impl DeliveryTimeWindow {
    pub fn new(days: Vec<DeliveryDay>) -> (r: Self)
        ensures
            r.days@ == days@,
            r.from is None,
            r.to is None,
    {
        DeliveryTimeWindow { days, from: None, to: None }
    }

    /// Every violation the window holds.
    pub open spec fn issues(self) -> Seq<(Seq<char>, Constraint)> {
        crate::validation::violation_when(self.days@.len() < 1, "days"@, Constraint::EmptyList)
            + (match self.from {
            Some(t) => t.issues(),
            None => Seq::empty(),
        }) + (match self.to {
            Some(t) => t.issues(),
            None => Seq::empty(),
        })
    }

    /// The day list is non-empty and both bounds, when present, are real
    /// wall-clock times.
    pub open spec fn valid(self) -> bool {
        &&& self.days@.len() >= 1
        &&& (self.from matches Some(t) ==> t.valid())
        &&& (self.to matches Some(t) ==> t.valid())
    }

    /// Appends every violation to the caller's list.
    pub fn collect_issues(&self, out: &mut Vec<ValidationIssue>)
        ensures
            issue_views(final (out)@) == issue_views(old(out)@) + self.issues(),
    {
        if self.days.len() < 1 {
            out.push(ValidationIssue { field: "days", constraint: Constraint::EmptyList });
        }
        match &self.from {
            Some(t) => t.collect_issues(out),
            None => {},
        }
        match &self.to {
            Some(t) => t.collect_issues(out),
            None => {},
        }
        proof {
            assert(issue_views(out@) =~= issue_views(old(out)@) + self.issues());
        }
    }

    pub fn validate(&self) -> (r: Result<(), ValidationErrors>)
        ensures
            r.is_ok() <==> self.valid(),
            r matches Err(e) ==> e@ == self.issues(),
    {
        let mut issues: Vec<ValidationIssue> = Vec::new();
        self.collect_issues(&mut issues);
        proof {
            assert(issue_views(issues@) =~= self.issues());
            lemma_window_valid_iff(*self);
        }
        if issues.len() == 0 {
            Ok(())
        } else {
            Err(ValidationErrors { issues })
        }
    }
}

/// A window is valid exactly when it holds no violation.
pub proof fn lemma_window_valid_iff(w: DeliveryTimeWindow)
    ensures
        w.valid() <==> w.issues().len() == 0,
{
}

/// The unit of time a speed limit is expressed per.
#[allow(non_camel_case_types)]
#[derive(Clone, Copy, Debug, Eq, PartialEq, Ord, PartialOrd, Hash)]
pub enum TimeUnit {
    MINUTE,
    HOUR,
    DAY,
}

/// A rate limit on a send request: an amount of messages per time unit.
#[derive(Clone, Copy, Debug, PartialEq, Eq)]
pub struct SpeedLimit {
    /// Messages allowed per time unit; zero means no limit.
    pub amount: i32,

    /// The unit the amount is per; the remote default is a minute.
    pub time_unit: Option<TimeUnit>,
}

impl SpeedLimit {
    pub fn new(amount: i32) -> (r: Self)
        ensures
            r.amount == amount,
            r.time_unit is None,
    {
        SpeedLimit { amount, time_unit: None }
    }

    /// Every violation the limit holds.
    pub open spec fn issues(self) -> Seq<(Seq<char>, Constraint)> {
        crate::validation::violation_when(self.amount < 0, "amount"@, Constraint::RangeMin(0))
    }

    /// The amount is non-negative; zero is the legal no-limit value.
    pub open spec fn valid(self) -> bool {
        self.amount >= 0
    }

    /// Appends every violation to the caller's list.
    pub fn collect_issues(&self, out: &mut Vec<ValidationIssue>)
        ensures
            issue_views(final (out)@) == issue_views(old(out)@) + self.issues(),
    {
        if self.amount < 0 {
            out.push(ValidationIssue { field: "amount", constraint: Constraint::RangeMin(0) });
        }
        proof {
            assert(issue_views(out@) =~= issue_views(old(out)@) + self.issues());
        }
    }

    pub fn validate(&self) -> (r: Result<(), ValidationErrors>)
        ensures
            r.is_ok() <==> self.valid(),
            r matches Err(e) ==> e@ == self.issues(),
    {
        let mut issues: Vec<ValidationIssue> = Vec::new();
        self.collect_issues(&mut issues);
        proof {
            assert(issue_views(issues@) =~= self.issues());
        }
        if issues.len() == 0 {
            Ok(())
        } else {
            Err(ValidationErrors { issues })
        }
    }
}

/// Identifiers the Indian telecom registry requires of a sender.
#[derive(Clone, Debug, PartialEq, Eq)]
pub struct IndiaDlt {
    /// Registered content template identifier.
    pub content_template_id: Option<String>,

    /// Registered principal entity identifier; required and non-empty.
    pub principal_entity_id: String,
}

impl IndiaDlt {
    pub fn new(principal_entity_id: String) -> (r: Self)
        ensures
            r.principal_entity_id@ == principal_entity_id@,
            r.content_template_id is None,
    {
        IndiaDlt { content_template_id: None, principal_entity_id }
    }

    /// Every violation the identifiers hold.
    pub open spec fn issues(self) -> Seq<(Seq<char>, Constraint)> {
        crate::validation::violation_when(
            self.principal_entity_id@.len() < 1,
            "principal_entity_id"@,
            Constraint::LengthMin(1),
        )
    }

    /// The principal entity identifier must be non-empty.
    pub open spec fn valid(self) -> bool {
        self.principal_entity_id@.len() >= 1
    }

    /// Appends every violation to the caller's list.
    pub fn collect_issues(&self, out: &mut Vec<ValidationIssue>)
        ensures
            issue_views(final (out)@) == issue_views(old(out)@) + self.issues(),
    {
        if char_len(&self.principal_entity_id) < 1 {
            out.push(
                ValidationIssue {
                    field: "principal_entity_id",
                    constraint: Constraint::LengthMin(1),
                },
            );
        }
        proof {
            assert(issue_views(out@) =~= issue_views(old(out)@) + self.issues());
        }
    }

    pub fn validate(&self) -> (r: Result<(), ValidationErrors>)
        ensures
            r.is_ok() <==> self.valid(),
            r matches Err(e) ==> e@ == self.issues(),
    {
        let mut issues: Vec<ValidationIssue> = Vec::new();
        self.collect_issues(&mut issues);
        proof {
            assert(issue_views(issues@) =~= self.issues());
        }
        if issues.len() == 0 {
            Ok(())
        } else {
            Err(ValidationErrors { issues })
        }
    }
}

/// Recipient classification the Turkish commercial-message registry
/// requires of a sender.
#[derive(Clone, Debug, PartialEq, Eq)]
pub struct TurkeyIys {
    /// Registered brand code.
    pub brand_code: Option<i32>,

    /// Recipient type: one of the registry's fixed codes.
    pub recipient_type: String,
}

impl TurkeyIys {
    pub fn new(recipient_type: String) -> (r: Self)
        ensures
            r.recipient_type@ == recipient_type@,
            r.brand_code is None,
    {
        TurkeyIys { brand_code: None, recipient_type }
    }

    /// Every violation the classification holds.
    pub open spec fn issues(self) -> Seq<(Seq<char>, Constraint)> {
        crate::validation::violation_when(
            !is_turkey_recipient_type(self.recipient_type@),
            "recipient_type"@,
            Constraint::Vocabulary,
        )
    }

    /// The recipient type must come from the registry's fixed vocabulary.
    pub open spec fn valid(self) -> bool {
        is_turkey_recipient_type(self.recipient_type@)
    }

    /// Appends every violation to the caller's list.
    pub fn collect_issues(&self, out: &mut Vec<ValidationIssue>)
        ensures
            issue_views(final (out)@) == issue_views(old(out)@) + self.issues(),
    {
        if !check_turkey_recipient_type(&self.recipient_type) {
            out.push(
                ValidationIssue { field: "recipient_type", constraint: Constraint::Vocabulary },
            );
        }
        proof {
            assert(issue_views(out@) =~= issue_views(old(out)@) + self.issues());
        }
    }

    pub fn validate(&self) -> (r: Result<(), ValidationErrors>)
        ensures
            r.is_ok() <==> self.valid(),
            r matches Err(e) ==> e@ == self.issues(),
    {
        let mut issues: Vec<ValidationIssue> = Vec::new();
        self.collect_issues(&mut issues);
        proof {
            assert(issue_views(issues@) =~= self.issues());
        }
        if issues.len() == 0 {
            Ok(())
        } else {
            Err(ValidationErrors { issues })
        }
    }
}

/// Jurisdiction-specific requirements; each sub-object is checked only when
/// present, and its absence is always acceptable.
#[derive(Clone, Debug, PartialEq, Eq)]
pub struct RegionalOptions {
    /// Identifiers the Indian registry requires.
    pub india_dlt: Option<IndiaDlt>,

    /// Classification the Turkish registry requires.
    pub turkey_iys: Option<TurkeyIys>,
}

impl RegionalOptions {
    pub fn new() -> (r: Self)
        ensures
            r.india_dlt is None,
            r.turkey_iys is None,
    {
        RegionalOptions { india_dlt: None, turkey_iys: None }
    }

    /// Every violation the present sub-objects hold.
    pub open spec fn issues(self) -> Seq<(Seq<char>, Constraint)> {
        (match self.india_dlt {
            Some(d) => d.issues(),
            None => Seq::empty(),
        }) + (match self.turkey_iys {
            Some(t) => t.issues(),
            None => Seq::empty(),
        })
    }

    /// Each present sub-object must itself be valid.
    pub open spec fn valid(self) -> bool {
        &&& (self.india_dlt matches Some(d) ==> d.valid())
        &&& (self.turkey_iys matches Some(t) ==> t.valid())
    }

    /// Appends every violation to the caller's list.
    pub fn collect_issues(&self, out: &mut Vec<ValidationIssue>)
        ensures
            issue_views(final (out)@) == issue_views(old(out)@) + self.issues(),
    {
        match &self.india_dlt {
            Some(d) => d.collect_issues(out),
            None => {},
        }
        match &self.turkey_iys {
            Some(t) => t.collect_issues(out),
            None => {},
        }
        proof {
            assert(issue_views(out@) =~= issue_views(old(out)@) + self.issues());
        }
    }

    pub fn validate(&self) -> (r: Result<(), ValidationErrors>)
        ensures
            r.is_ok() <==> self.valid(),
            r matches Err(e) ==> e@ == self.issues(),
    {
        let mut issues: Vec<ValidationIssue> = Vec::new();
        self.collect_issues(&mut issues);
        proof {
            assert(issue_views(issues@) =~= self.issues());
            lemma_regional_valid_iff(*self);
        }
        if issues.len() == 0 {
            Ok(())
        } else {
            Err(ValidationErrors { issues })
        }
    }
}

/// Regional options are valid exactly when they hold no violation.
pub proof fn lemma_regional_valid_iff(r: RegionalOptions)
    ensures
        r.valid() <==> r.issues().len() == 0,
{
}

/// One message of a send request.
#[derive(Clone, Debug, PartialEq, Eq)]
pub struct Message {
    /// The recipients; at least one is required.
    pub destinations: Vec<Destination>,

    /// The sender shown to the recipients.
    pub from: Option<String>,

    /// The text of the message.
    pub text: Option<String>,

    /// Additional client data echoed to the notify URL. At most 4000
    /// characters.
    pub callback_data: Option<String>,

    /// The window within which delivery is allowed.
    pub delivery_time_window: Option<DeliveryTimeWindow>,

    /// The URL on the callback server to which the delivery report is sent.
    pub notify_url: Option<String>,

    /// Jurisdiction-specific requirements.
    pub regional: Option<RegionalOptions>,

    /// Transliteration hint for the message text.
    pub transliteration: Option<String>,
}

/// Every violation a sequence of destinations holds, in order.
pub open spec fn issues_of_destinations(s: Seq<Destination>) -> Seq<(Seq<char>, Constraint)>
    decreases s.len(),
{
    if s.len() == 0 {
        Seq::empty()
    } else {
        issues_of_destinations(s.drop_last()) + s.last().issues()
    }
}

/// A sequence of destinations holds no violation exactly when each
/// destination is valid.
pub proof fn lemma_destinations_valid_iff(s: Seq<Destination>)
    ensures
        issues_of_destinations(s).len() == 0 <==> (forall|i: int|
            0 <= i < s.len() ==> s[i].valid()),
    decreases s.len(),
{
    if s.len() > 0 {
        lemma_destinations_valid_iff(s.drop_last());
        assert(forall|i: int| 0 <= i < s.len() - 1 ==> s.drop_last()[i] == s[i]);
        assert(s.last() == s[s.len() - 1]);
    }
}

impl Message {
    pub fn new(destinations: Vec<Destination>) -> (r: Self)
        ensures
            r.destinations@ == destinations@,
            r.from is None,
            r.text is None,
            r.callback_data is None,
            r.delivery_time_window is None,
            r.notify_url is None,
            r.regional is None,
            r.transliteration is None,
    {
        Message {
            destinations,
            from: None,
            text: None,
            callback_data: None,
            delivery_time_window: None,
            notify_url: None,
            regional: None,
            transliteration: None,
        }
    }

    /// Every violation the message holds, in field order; a violation in a
    /// nested object counts against the whole message.
    pub open spec fn issues(self) -> Seq<(Seq<char>, Constraint)> {
        crate::validation::violation_when(
            self.destinations@.len() < 1,
            "destinations"@,
            Constraint::EmptyList,
        ) + issues_of_destinations(self.destinations@) + self.optional_field_issues()
    }

    /// The constraints the remote API documents for one message.
    pub open spec fn valid(self) -> bool {
        &&& self.destinations@.len() >= 1
        &&& (forall|i: int| 0 <= i < self.destinations@.len() ==> self.destinations@[i].valid())
        &&& (self.callback_data matches Some(d) ==> d@.len() <= 4000)
        &&& (self.delivery_time_window matches Some(w) ==> w.valid())
        &&& (self.notify_url matches Some(u) ==> is_wellformed_url(u@))
        &&& (self.regional matches Some(r) ==> r.valid())
        &&& (self.transliteration matches Some(t) ==> is_transliteration(t@))
    }

    /// The violations of every optional field, in field order.
    pub open spec fn optional_field_issues(self) -> Seq<(Seq<char>, Constraint)> {
        (match self.callback_data {
            Some(d) => crate::validation::violation_when(
                d@.len() > 4000,
                "callback_data"@,
                Constraint::LengthMax(4000),
            ),
            None => Seq::empty(),
        }) + (match self.delivery_time_window {
            Some(w) => w.issues(),
            None => Seq::empty(),
        }) + (match self.notify_url {
            Some(u) => crate::validation::violation_when(
                !is_wellformed_url(u@),
                "notify_url"@,
                Constraint::Url,
            ),
            None => Seq::empty(),
        }) + (match self.regional {
            Some(r) => r.issues(),
            None => Seq::empty(),
        }) + (match self.transliteration {
            Some(t) => crate::validation::violation_when(
                !is_transliteration(t@),
                "transliteration"@,
                Constraint::Vocabulary,
            ),
            None => Seq::empty(),
        })
    }

    /// Appends the callback-data violation, when the field holds one.
    fn collect_callback_issue(&self, out: &mut Vec<ValidationIssue>)
        ensures
            issue_views(final (out)@) == issue_views(old(out)@) + (match self.callback_data {
                Some(d) => crate::validation::violation_when(
                    d@.len() > 4000,
                    "callback_data"@,
                    Constraint::LengthMax(4000),
                ),
                None => Seq::empty(),
            }),
    {
        match &self.callback_data {
            Some(d) => {
                if char_len(d) > 4000 {
                    crate::validation::push_issue(
                        out,
                        ValidationIssue {
                            field: "callback_data",
                            constraint: Constraint::LengthMax(4000),
                        },
                    );
                }
            },
            None => {},
        }
        proof {
            assert(issue_views(out@) =~= issue_views(old(out)@) + (match self.callback_data {
                Some(d) => crate::validation::violation_when(
                    d@.len() > 4000,
                    "callback_data"@,
                    Constraint::LengthMax(4000),
                ),
                None => Seq::empty(),
            }));
        }
    }

    /// Appends the delivery-window violations, when the window is present.
    fn collect_window_issues(&self, out: &mut Vec<ValidationIssue>)
        ensures
            issue_views(final (out)@) == issue_views(old(out)@) + (match self
                .delivery_time_window {
                Some(w) => w.issues(),
                None => Seq::empty(),
            }),
    {
        match &self.delivery_time_window {
            Some(w) => w.collect_issues(out),
            None => {
                proof {
                    assert(issue_views(out@) =~= issue_views(old(out)@) + Seq::<(
                        Seq<char>,
                        Constraint,
                    )>::empty());
                }
            },
        }
    }

    /// Appends the notify-URL violation, when the field holds one.
    fn collect_notify_url_issue(&self, out: &mut Vec<ValidationIssue>)
        ensures
            issue_views(final (out)@) == issue_views(old(out)@) + (match self.notify_url {
                Some(u) => crate::validation::violation_when(
                    !is_wellformed_url(u@),
                    "notify_url"@,
                    Constraint::Url,
                ),
                None => Seq::empty(),
            }),
    {
        match &self.notify_url {
            Some(u) => {
                if !check_url(u.as_str()) {
                    crate::validation::push_issue(
                        out,
                        ValidationIssue { field: "notify_url", constraint: Constraint::Url },
                    );
                }
            },
            None => {},
        }
        proof {
            assert(issue_views(out@) =~= issue_views(old(out)@) + (match self.notify_url {
                Some(u) => crate::validation::violation_when(
                    !is_wellformed_url(u@),
                    "notify_url"@,
                    Constraint::Url,
                ),
                None => Seq::empty(),
            }));
        }
    }

    /// Appends the regional violations, when the options are present.
    fn collect_regional_issues(&self, out: &mut Vec<ValidationIssue>)
        ensures
            issue_views(final (out)@) == issue_views(old(out)@) + (match self.regional {
                Some(r) => r.issues(),
                None => Seq::empty(),
            }),
    {
        match &self.regional {
            Some(r) => r.collect_issues(out),
            None => {
                proof {
                    assert(issue_views(out@) =~= issue_views(old(out)@) + Seq::<(
                        Seq<char>,
                        Constraint,
                    )>::empty());
                }
            },
        }
    }

    /// Appends the transliteration violation, when the field holds one.
    fn collect_transliteration_issue(&self, out: &mut Vec<ValidationIssue>)
        ensures
            issue_views(final (out)@) == issue_views(old(out)@) + (match self.transliteration {
                Some(t) => crate::validation::violation_when(
                    !is_transliteration(t@),
                    "transliteration"@,
                    Constraint::Vocabulary,
                ),
                None => Seq::empty(),
            }),
    {
        match &self.transliteration {
            Some(t) => {
                if !check_transliteration(t) {
                    crate::validation::push_issue(
                        out,
                        ValidationIssue {
                            field: "transliteration",
                            constraint: Constraint::Vocabulary,
                        },
                    );
                }
            },
            None => {},
        }
        proof {
            assert(issue_views(out@) =~= issue_views(old(out)@) + (match self.transliteration {
                Some(t) => crate::validation::violation_when(
                    !is_transliteration(t@),
                    "transliteration"@,
                    Constraint::Vocabulary,
                ),
                None => Seq::empty(),
            }));
        }
    }

    /// Appends the violations of the optional fields to the caller's list.
    fn collect_optional_issues(&self, out: &mut Vec<ValidationIssue>)
        ensures
            issue_views(final (out)@) == issue_views(old(out)@) + self.optional_field_issues(),
    {
        let ghost v0 = issue_views(out@);
        let ghost p1 = (match &self.callback_data {
            Some(d) => crate::validation::violation_when(
                d@.len() > 4000,
                "callback_data"@,
                Constraint::LengthMax(4000),
            ),
            None => Seq::empty(),
        });
        let ghost p2 = (match &self.delivery_time_window {
            Some(w) => w.issues(),
            None => Seq::empty(),
        });
        let ghost p3 = (match &self.notify_url {
            Some(u) => crate::validation::violation_when(
                !is_wellformed_url(u@),
                "notify_url"@,
                Constraint::Url,
            ),
            None => Seq::empty(),
        });
        let ghost p4 = (match &self.regional {
            Some(r) => r.issues(),
            None => Seq::empty(),
        });
        let ghost p5 = (match &self.transliteration {
            Some(t) => crate::validation::violation_when(
                !is_transliteration(t@),
                "transliteration"@,
                Constraint::Vocabulary,
            ),
            None => Seq::empty(),
        });
        self.collect_callback_issue(out);
        proof {
            assert(issue_views(out@) == v0 + p1);
        }
        self.collect_window_issues(out);
        proof {
            assert(issue_views(out@) == v0 + p1 + p2);
        }
        self.collect_notify_url_issue(out);
        proof {
            assert(issue_views(out@) == v0 + p1 + p2 + p3);
        }
        self.collect_regional_issues(out);
        proof {
            assert(issue_views(out@) == v0 + p1 + p2 + p3 + p4);
        }
        self.collect_transliteration_issue(out);
        proof {
            assert(issue_views(out@) == v0 + p1 + p2 + p3 + p4 + p5);
            crate::validation::lemma_concat_assoc5(v0, p1, p2, p3, p4, p5);
            assert(self.optional_field_issues() == p1 + p2 + p3 + p4 + p5);
        }
    }

    /// Appends every violation to the caller's list.
    pub fn collect_issues(&self, out: &mut Vec<ValidationIssue>)
        ensures
            issue_views(final (out)@) == issue_views(old(out)@) + self.issues(),
    {
        let ghost p_empty = crate::validation::violation_when(
            self.destinations@.len() < 1,
            "destinations"@,
            Constraint::EmptyList,
        );
        let ghost p_dests = issues_of_destinations(self.destinations@);
        if self.destinations.len() < 1 {
            out.push(ValidationIssue { field: "destinations", constraint: Constraint::EmptyList });
        }
        proof {
            assert(issue_views(out@) =~= issue_views(old(out)@) + p_empty);
        }
        let ghost mid = issue_views(out@);
        let mut i: usize = 0;
        while i < self.destinations.len()
            invariant
                i <= self.destinations@.len(),
                issue_views(out@) == mid + issues_of_destinations(self.destinations@.take(i as int)),
            decreases self.destinations@.len() - i,
        {
            self.destinations[i].collect_issues(out);
            proof {
                assert(self.destinations@.take(i + 1).drop_last() =~= self.destinations@.take(
                    i as int,
                ));
                assert(self.destinations@.take(i + 1).last() == self.destinations@[i as int]);
                assert(issue_views(out@) =~= mid + issues_of_destinations(
                    self.destinations@.take(i + 1),
                ));
            }
            i += 1;
        }
        proof {
            assert(self.destinations@.take(self.destinations@.len() as int)
                =~= self.destinations@);
            assert(issue_views(out@) =~= issue_views(old(out)@) + p_empty + p_dests);
        }
        self.collect_optional_issues(out);
        proof {
            assert(issue_views(out@) =~= issue_views(old(out)@) + p_empty + p_dests
                + self.optional_field_issues());
            assert(self.issues() == p_empty + p_dests + self.optional_field_issues());
        }
    }

    pub fn validate(&self) -> (r: Result<(), ValidationErrors>)
        ensures
            r.is_ok() <==> self.valid(),
            r matches Err(e) ==> e@ == self.issues(),
    {
        let mut issues: Vec<ValidationIssue> = Vec::new();
        self.collect_issues(&mut issues);
        proof {
            assert(issue_views(issues@) =~= self.issues());
            lemma_message_valid_iff(*self);
        }
        if issues.len() == 0 {
            Ok(())
        } else {
            Err(ValidationErrors { issues })
        }
    }
}

/// A message is valid exactly when it holds no violation.
pub proof fn lemma_message_valid_iff(m: Message)
    ensures
        m.valid() <==> m.issues().len() == 0,
{
    lemma_destinations_valid_iff(m.destinations@);
    match m.delivery_time_window {
        Some(w) => lemma_window_valid_iff(w),
        None => {},
    }
    match m.regional {
        Some(r) => lemma_regional_valid_iff(r),
        None => {},
    }
}

/// Every violation a sequence of messages holds, in order.
pub open spec fn issues_of_messages(s: Seq<Message>) -> Seq<(Seq<char>, Constraint)>
    decreases s.len(),
{
    if s.len() == 0 {
        Seq::empty()
    } else {
        issues_of_messages(s.drop_last()) + s.last().issues()
    }
}

/// A sequence of messages holds no violation exactly when each message is
/// valid.
pub proof fn lemma_messages_valid_iff(s: Seq<Message>)
    ensures
        issues_of_messages(s).len() == 0 <==> (forall|i: int| 0 <= i < s.len() ==> s[i].valid()),
    decreases s.len(),
{
    if s.len() > 0 {
        lemma_messages_valid_iff(s.drop_last());
        lemma_message_valid_iff(s.last());
        assert(forall|i: int| 0 <= i < s.len() - 1 ==> s.drop_last()[i] == s[i]);
        assert(s.last() == s[s.len() - 1]);
    }
}

/// Request body for sending one or more messages.
#[derive(Clone, Debug, PartialEq, Eq)]
pub struct SendRequestBody {
    /// Identifier of the whole send request. Generated remotely when not
    /// set.
    pub bulk_id: Option<String>,

    /// The messages to send; at least one is required.
    pub messages: Vec<Message>,

    /// A rate limit on the sending.
    pub sending_speed_limit: Option<SpeedLimit>,
}

impl SendRequestBody {
    pub fn new(messages: Vec<Message>) -> (r: Self)
        ensures
            r.messages@ == messages@,
            r.bulk_id is None,
            r.sending_speed_limit is None,
    {
        SendRequestBody { bulk_id: None, messages, sending_speed_limit: None }
    }

    /// Every violation the request holds, in field order; a violation in a
    /// nested object counts against the whole request.
    pub open spec fn issues(self) -> Seq<(Seq<char>, Constraint)> {
        crate::validation::violation_when(
            self.messages@.len() < 1,
            "messages"@,
            Constraint::EmptyList,
        ) + issues_of_messages(self.messages@) + (match self.sending_speed_limit {
            Some(sl) => sl.issues(),
            None => Seq::empty(),
        })
    }

    /// The constraints the remote API documents for a send request.
    pub open spec fn valid(self) -> bool {
        &&& self.messages@.len() >= 1
        &&& (forall|i: int| 0 <= i < self.messages@.len() ==> self.messages@[i].valid())
        &&& (self.sending_speed_limit matches Some(sl) ==> sl.valid())
    }

    /// Appends every violation to the caller's list.
    pub fn collect_issues(&self, out: &mut Vec<ValidationIssue>)
        ensures
            issue_views(final (out)@) == issue_views(old(out)@) + self.issues(),
    {
        if self.messages.len() < 1 {
            out.push(ValidationIssue { field: "messages", constraint: Constraint::EmptyList });
        }
        proof {
            assert(issue_views(out@) =~= issue_views(old(out)@)
                + crate::validation::violation_when(
                self.messages@.len() < 1,
                "messages"@,
                Constraint::EmptyList,
            ));
        }
        let ghost mid = issue_views(out@);
        let mut i: usize = 0;
        while i < self.messages.len()
            invariant
                i <= self.messages@.len(),
                issue_views(out@) == mid + issues_of_messages(self.messages@.take(i as int)),
            decreases self.messages@.len() - i,
        {
            self.messages[i].collect_issues(out);
            proof {
                assert(self.messages@.take(i + 1).drop_last() =~= self.messages@.take(i as int));
                assert(self.messages@.take(i + 1).last() == self.messages@[i as int]);
                assert(issue_views(out@) =~= mid + issues_of_messages(self.messages@.take(i + 1)));
            }
            i += 1;
        }
        proof {
            assert(self.messages@.take(self.messages@.len() as int) =~= self.messages@);
        }
        proof {
            assert(issue_views(out@) =~= issue_views(old(out)@)
                + crate::validation::violation_when(
                self.messages@.len() < 1,
                "messages"@,
                Constraint::EmptyList,
            ) + issues_of_messages(self.messages@));
        }
        match &self.sending_speed_limit {
            Some(sl) => sl.collect_issues(out),
            None => {},
        }
        proof {
            assert(issue_views(out@) =~= issue_views(old(out)@) + self.issues());
        }
    }

    pub fn validate(&self) -> (r: Result<(), ValidationErrors>)
        ensures
            r.is_ok() <==> self.valid(),
            r matches Err(e) ==> e@ == self.issues(),
    {
        let mut issues: Vec<ValidationIssue> = Vec::new();
        self.collect_issues(&mut issues);
        proof {
            assert(issue_views(issues@) =~= self.issues());
            lemma_send_request_valid_iff(*self);
        }
        if issues.len() == 0 {
            Ok(())
        } else {
            Err(ValidationErrors { issues })
        }
    }
}

/// A send request is valid exactly when it holds no violation.
pub proof fn lemma_send_request_valid_iff(r: SendRequestBody)
    ensures
        r.valid() <==> r.issues().len() == 0,
{
    lemma_messages_valid_iff(r.messages@);
}

/// Request body asking for a preview of how a text will be sent.
#[derive(Clone, Debug, PartialEq, Eq)]
pub struct PreviewRequestBody {
    /// The text to preview.
    pub text: String,

    /// Language code of the text.
    pub language_code: Option<String>,

    /// Transliteration hint for the text.
    pub transliteration: Option<String>,
}

impl PreviewRequestBody {
    pub fn new(text: String) -> (r: Self)
        ensures
            r.text@ == text@,
            r.language_code is None,
            r.transliteration is None,
    {
        PreviewRequestBody { text, language_code: None, transliteration: None }
    }

    /// Every violation the request holds.
    pub open spec fn issues(self) -> Seq<(Seq<char>, Constraint)> {
        (match self.language_code {
            Some(c) => crate::validation::violation_when(
                !is_language_code(c@),
                "language_code"@,
                Constraint::Vocabulary,
            ),
            None => Seq::empty(),
        }) + (match self.transliteration {
            Some(t) => crate::validation::violation_when(
                !is_transliteration(t@),
                "transliteration"@,
                Constraint::Vocabulary,
            ),
            None => Seq::empty(),
        })
    }

    /// Each hint, when present, must come from its fixed vocabulary.
    pub open spec fn valid(self) -> bool {
        &&& (self.language_code matches Some(c) ==> is_language_code(c@))
        &&& (self.transliteration matches Some(t) ==> is_transliteration(t@))
    }

    pub fn validate(&self) -> (r: Result<(), ValidationErrors>)
        ensures
            r.is_ok() <==> self.valid(),
            r matches Err(e) ==> e@ == self.issues(),
    {
        let mut issues: Vec<ValidationIssue> = Vec::new();
        match &self.language_code {
            Some(c) => {
                if !check_language_code(c) {
                    issues.push(
                        ValidationIssue {
                            field: "language_code",
                            constraint: Constraint::Vocabulary,
                        },
                    );
                }
            },
            None => {},
        }
        match &self.transliteration {
            Some(t) => {
                if !check_transliteration(t) {
                    issues.push(
                        ValidationIssue {
                            field: "transliteration",
                            constraint: Constraint::Vocabulary,
                        },
                    );
                }
            },
            None => {},
        }
        proof {
            assert(issue_views(issues@) =~= self.issues());
        }
        if issues.len() == 0 {
            Ok(())
        } else {
            Err(ValidationErrors { issues })
        }
    }
}

/// Query parameters filtering SMS delivery reports.
#[derive(Clone, Debug, PartialEq, Eq)]
pub struct GetDeliveryReportsQueryParameters {
    /// Bulk identifier for which reports are requested.
    pub bulk_id: Option<String>,

    /// The identifier of one sent message.
    pub message_id: Option<String>,

    /// Maximum number of reports, at most 1000.
    pub limit: Option<i32>,
}

impl GetDeliveryReportsQueryParameters {
    pub fn new() -> (r: Self)
        ensures
            r.bulk_id is None,
            r.message_id is None,
            r.limit is None,
    {
        GetDeliveryReportsQueryParameters { bulk_id: None, message_id: None, limit: None }
    }

    /// Every violation the parameters hold.
    pub open spec fn issues(self) -> Seq<(Seq<char>, Constraint)> {
        match self.limit {
            Some(l) => crate::validation::violation_when(
                l > 1000,
                "limit"@,
                Constraint::RangeMax(1000),
            ),
            None => Seq::empty(),
        }
    }

    /// The report count limit must not exceed 1000.
    pub open spec fn valid(self) -> bool {
        self.limit matches Some(l) ==> l <= 1000
    }

    pub fn validate(&self) -> (r: Result<(), ValidationErrors>)
        ensures
            r.is_ok() <==> self.valid(),
            r matches Err(e) ==> e@ == self.issues(),
    {
        let mut issues: Vec<ValidationIssue> = Vec::new();
        match self.limit {
            Some(l) => {
                if l > 1000 {
                    issues.push(
                        ValidationIssue { field: "limit", constraint: Constraint::RangeMax(1000) },
                    );
                }
            },
            None => {},
        }
        proof {
            assert(issue_views(issues@) =~= self.issues());
        }
        if issues.len() == 0 {
            Ok(())
        } else {
            Err(ValidationErrors { issues })
        }
    }
}

impl Default for GetDeliveryReportsQueryParameters {
    fn default() -> (r: Self)
        ensures
            r.bulk_id is None,
            r.message_id is None,
            r.limit is None,
    {
        Self::new()
    }
}

/// Law: a message holding only its required recipients — every optional
/// field absent — passes validation whenever it has at least one recipient
/// and each recipient address is non-empty.
pub proof fn lemma_minimal_message_valid(m: Message)
    requires
        m.destinations@.len() >= 1,
        forall|i: int| 0 <= i < m.destinations@.len() ==> m.destinations@[i].valid(),
        m.callback_data is None,
        m.delivery_time_window is None,
        m.notify_url is None,
        m.regional is None,
        m.transliteration is None,
    ensures
        m.valid(),
{
}

/// Law: a send request holding only its required messages — every optional
/// field absent — passes validation whenever it has at least one message and
/// each message is itself valid.
pub proof fn lemma_minimal_sms_send_request_valid(r: SendRequestBody)
    requires
        r.messages@.len() >= 1,
        forall|i: int| 0 <= i < r.messages@.len() ==> r.messages@[i].valid(),
        r.bulk_id is None,
        r.sending_speed_limit is None,
    ensures
        r.valid(),
{
}

/// Law: a preview request holding only its required text — both hints
/// absent — passes validation, whatever the text.
pub proof fn lemma_minimal_preview_valid(p: PreviewRequestBody)
    requires
        p.language_code is None,
        p.transliteration is None,
    ensures
        p.valid(),
{
}

/// Law: a request without messages fails validation; a message without
/// destinations fails validation; a destination with an empty address fails
/// validation.
pub proof fn lemma_structural_emptiness_rejected(
    r: SendRequestBody,
    m: Message,
    d: Destination,
)
    ensures
        r.messages@.len() == 0 ==> !r.valid(),
        m.destinations@.len() == 0 ==> !m.valid(),
        d.to@.len() == 0 ==> !d.valid(),
{
}

/// Law: a delivery window with no day fails validation; one with at least
/// one day and in-range bounds passes.
pub proof fn lemma_delivery_window_day_rule(w: DeliveryTimeWindow)
    ensures
        w.days@.len() == 0 ==> !w.valid(),
        (w.days@.len() >= 1 && (w.from matches Some(t) ==> t.valid()) && (w.to matches Some(t)
            ==> t.valid())) ==> w.valid(),
{
}

/// Law: a delivery-time bound at (23, 59) is valid; hour 24 or minute 60 is
/// not.
pub proof fn lemma_delivery_time_bounds(t: DeliveryTime)
    ensures
        (t.hour == 23 && t.minute == 59) ==> t.valid(),
        t.hour == 24 ==> !t.valid(),
        t.minute == 60 ==> !t.valid(),
{
}

/// Law: a speed-limit amount of zero is the legal no-limit value, not an
/// error.
pub proof fn lemma_zero_speed_limit_valid(sl: SpeedLimit)
    ensures
        sl.amount == 0 ==> sl.valid(),
{
}

/// Law: an empty principal-entity identifier, or a recipient type outside
/// the registry's vocabulary, fails validation of the whole message, however
/// valid the rest of it is.
pub proof fn lemma_regional_identifier_rules(m: Message)
    ensures
        (m.regional matches Some(r) && r.india_dlt matches Some(d)
            && d.principal_entity_id@.len() == 0) ==> !m.valid(),
        (m.regional matches Some(r) && r.turkey_iys matches Some(t) && !is_turkey_recipient_type(
            t.recipient_type@,
        )) ==> !m.valid(),
{
}

/// The wire tokens of the enumerations, and the JSON form of every request
/// shape in this module: an object holding exactly the present fields, in
/// declaration order, under the remote API's field names.
impl TimeUnit {
    /// The fixed wire token of the unit.
    pub open spec fn spec_token(self) -> Seq<char> {
        match self {
            TimeUnit::MINUTE => "MINUTE"@,
            TimeUnit::HOUR => "HOUR"@,
            TimeUnit::DAY => "DAY"@,
        }
    }

    /// The token the unit serializes to.
    pub fn token(&self) -> (r: &'static str)
        ensures
            r@ == self.spec_token(),
    {
        match self {
            TimeUnit::MINUTE => "MINUTE",
            TimeUnit::HOUR => "HOUR",
            TimeUnit::DAY => "DAY",
        }
    }

    /// The unit's JSON value: its token as a JSON string.
    pub open spec fn wire_json(self) -> Seq<char> {
        match self {
            TimeUnit::MINUTE => "\"MINUTE\""@,
            TimeUnit::HOUR => "\"HOUR\""@,
            TimeUnit::DAY => "\"DAY\""@,
        }
    }

    /// Renders the unit's JSON value.
    pub fn to_json(&self) -> (r: String)
        ensures
            r@ == self.wire_json(),
    {
        match self {
            TimeUnit::MINUTE => "\"MINUTE\"".to_owned(),
            TimeUnit::HOUR => "\"HOUR\"".to_owned(),
            TimeUnit::DAY => "\"DAY\"".to_owned(),
        }
    }

    /// Decodes a wire token; an unrecognized token is a decoding error, not
    /// a fallback.
    pub fn from_token(s: &str) -> (r: Result<TimeUnit, DecodeError>)
        ensures
            s@ == "MINUTE"@ ==> r == Ok::<TimeUnit, DecodeError>(TimeUnit::MINUTE),
            s@ == "HOUR"@ ==> r == Ok::<TimeUnit, DecodeError>(TimeUnit::HOUR),
            s@ == "DAY"@ ==> r == Ok::<TimeUnit, DecodeError>(TimeUnit::DAY),
            !(s@ == "MINUTE"@ || s@ == "HOUR"@ || s@ == "DAY"@) ==> r is Err,
    {
        broadcast use vstd::string::group_string_axioms;

        proof {
            reveal_strlit("MINUTE");
            reveal_strlit("HOUR");
            reveal_strlit("DAY");
            assert("MINUTE"@.len() == 6 && "HOUR"@.len() == 4 && "DAY"@.len() == 3);
        }
        if str_eq(s, "MINUTE") {
            Ok(TimeUnit::MINUTE)
        } else if str_eq(s, "HOUR") {
            Ok(TimeUnit::HOUR)
        } else if str_eq(s, "DAY") {
            Ok(TimeUnit::DAY)
        } else {
            Err(DecodeError::new())
        }
    }
}

impl DeliveryDay {
    /// The fixed wire token of the day.
    pub open spec fn spec_token(self) -> Seq<char> {
        match self {
            DeliveryDay::MONDAY => "MONDAY"@,
            DeliveryDay::TUESDAY => "TUESDAY"@,
            DeliveryDay::WEDNESDAY => "WEDNESDAY"@,
            DeliveryDay::THURSDAY => "THURSDAY"@,
            DeliveryDay::FRIDAY => "FRIDAY"@,
            DeliveryDay::SATURDAY => "SATURDAY"@,
            DeliveryDay::SUNDAY => "SUNDAY"@,
        }
    }

    /// The token the day serializes to.
    pub fn token(&self) -> (r: &'static str)
        ensures
            r@ == self.spec_token(),
    {
        match self {
            DeliveryDay::MONDAY => "MONDAY",
            DeliveryDay::TUESDAY => "TUESDAY",
            DeliveryDay::WEDNESDAY => "WEDNESDAY",
            DeliveryDay::THURSDAY => "THURSDAY",
            DeliveryDay::FRIDAY => "FRIDAY",
            DeliveryDay::SATURDAY => "SATURDAY",
            DeliveryDay::SUNDAY => "SUNDAY",
        }
    }

    /// The day's JSON value: its token as a JSON string.
    pub open spec fn wire_json(self) -> Seq<char> {
        match self {
            DeliveryDay::MONDAY => "\"MONDAY\""@,
            DeliveryDay::TUESDAY => "\"TUESDAY\""@,
            DeliveryDay::WEDNESDAY => "\"WEDNESDAY\""@,
            DeliveryDay::THURSDAY => "\"THURSDAY\""@,
            DeliveryDay::FRIDAY => "\"FRIDAY\""@,
            DeliveryDay::SATURDAY => "\"SATURDAY\""@,
            DeliveryDay::SUNDAY => "\"SUNDAY\""@,
        }
    }

    /// Renders the day's JSON value.
    pub fn to_json(&self) -> (r: String)
        ensures
            r@ == self.wire_json(),
    {
        match self {
            DeliveryDay::MONDAY => "\"MONDAY\"".to_owned(),
            DeliveryDay::TUESDAY => "\"TUESDAY\"".to_owned(),
            DeliveryDay::WEDNESDAY => "\"WEDNESDAY\"".to_owned(),
            DeliveryDay::THURSDAY => "\"THURSDAY\"".to_owned(),
            DeliveryDay::FRIDAY => "\"FRIDAY\"".to_owned(),
            DeliveryDay::SATURDAY => "\"SATURDAY\"".to_owned(),
            DeliveryDay::SUNDAY => "\"SUNDAY\"".to_owned(),
        }
    }

    /// Decodes a wire token; an unrecognized token is a decoding error, not
    /// a fallback.
    pub fn from_token(s: &str) -> (r: Result<DeliveryDay, DecodeError>)
        ensures
            s@ == "MONDAY"@ ==> r == Ok::<DeliveryDay, DecodeError>(DeliveryDay::MONDAY),
            s@ == "TUESDAY"@ ==> r == Ok::<DeliveryDay, DecodeError>(DeliveryDay::TUESDAY),
            s@ == "WEDNESDAY"@ ==> r == Ok::<DeliveryDay, DecodeError>(DeliveryDay::WEDNESDAY),
            s@ == "THURSDAY"@ ==> r == Ok::<DeliveryDay, DecodeError>(DeliveryDay::THURSDAY),
            s@ == "FRIDAY"@ ==> r == Ok::<DeliveryDay, DecodeError>(DeliveryDay::FRIDAY),
            s@ == "SATURDAY"@ ==> r == Ok::<DeliveryDay, DecodeError>(DeliveryDay::SATURDAY),
            s@ == "SUNDAY"@ ==> r == Ok::<DeliveryDay, DecodeError>(DeliveryDay::SUNDAY),
            !(s@ == "MONDAY"@ || s@ == "TUESDAY"@ || s@ == "WEDNESDAY"@ || s@ == "THURSDAY"@
                || s@ == "FRIDAY"@ || s@ == "SATURDAY"@ || s@ == "SUNDAY"@) ==> r is Err,
    {
        broadcast use vstd::string::group_string_axioms;

        proof {
            reveal_strlit("MONDAY");
            reveal_strlit("TUESDAY");
            reveal_strlit("WEDNESDAY");
            reveal_strlit("THURSDAY");
            reveal_strlit("FRIDAY");
            reveal_strlit("SATURDAY");
            reveal_strlit("SUNDAY");
            assert("MONDAY"@.len() == 6 && "TUESDAY"@.len() == 7 && "WEDNESDAY"@.len() == 9
                && "THURSDAY"@.len() == 8 && "FRIDAY"@.len() == 6 && "SATURDAY"@.len() == 8
                && "SUNDAY"@.len() == 6);
            assert("MONDAY"@[0] == 'M' && "FRIDAY"@[0] == 'F' && "SUNDAY"@[0] == 'S');
            assert("THURSDAY"@[0] == 'T' && "SATURDAY"@[0] == 'S');
        }
        if str_eq(s, "MONDAY") {
            Ok(DeliveryDay::MONDAY)
        } else if str_eq(s, "TUESDAY") {
            Ok(DeliveryDay::TUESDAY)
        } else if str_eq(s, "WEDNESDAY") {
            Ok(DeliveryDay::WEDNESDAY)
        } else if str_eq(s, "THURSDAY") {
            Ok(DeliveryDay::THURSDAY)
        } else if str_eq(s, "FRIDAY") {
            Ok(DeliveryDay::FRIDAY)
        } else if str_eq(s, "SATURDAY") {
            Ok(DeliveryDay::SATURDAY)
        } else if str_eq(s, "SUNDAY") {
            Ok(DeliveryDay::SUNDAY)
        } else {
            Err(DecodeError::new())
        }
    }
}

impl Destination {
    /// The members of the destination's wire object.
    pub open spec fn wire_fields(self) -> Seq<(Seq<char>, Seq<char>)> {
        opt_str_field("messageId"@, self.message_id) + seq![("to"@, json_str(self.to@))]
    }

    /// The destination's JSON wire form.
    pub open spec fn wire_json(self) -> Seq<char> {
        render_obj(self.wire_fields())
    }

    /// Renders the destination to its JSON wire form.
    pub fn to_json(&self) -> (r: String)
        ensures
            r@ == self.wire_json(),
    {
        let ghost q1 = opt_str_field("messageId"@, self.message_id);
        let mut fields: Vec<WireField> = Vec::new();
        match &self.message_id {
            Some(m) => {
                push_field(
                    &mut fields,
                    WireField { name: "messageId", value: json_string(m.as_str()) },
                );
                proof {
                    assert(field_views(fields@) =~= q1);
                }
            },
            None => {
                proof {
                    assert(field_views(fields@) =~= q1);
                }
            },
        }
        push_field(&mut fields, WireField { name: "to", value: json_string(self.to.as_str()) });
        proof {
            assert(field_views(fields@) =~= self.wire_fields());
        }
        render_object(&fields)
    }
}

impl DeliveryTime {
    /// The members of the time's wire object.
    pub open spec fn wire_fields(self) -> Seq<(Seq<char>, Seq<char>)> {
        seq![("hour"@, json_int(self.hour as int)), ("minute"@, json_int(self.minute as int))]
    }

    /// The time's JSON wire form.
    pub open spec fn wire_json(self) -> Seq<char> {
        render_obj(self.wire_fields())
    }

    /// Renders the time to its JSON wire form.
    pub fn to_json(&self) -> (r: String)
        ensures
            r@ == self.wire_json(),
    {
        let mut fields: Vec<WireField> = Vec::new();
        push_field(
            &mut fields,
            WireField { name: "hour", value: json_int_string(self.hour as i64) },
        );
        push_field(
            &mut fields,
            WireField { name: "minute", value: json_int_string(self.minute as i64) },
        );
        proof {
            assert(field_views(fields@) =~= self.wire_fields());
        }
        render_object(&fields)
    }
}

impl SpeedLimit {
    /// The members of the limit's wire object.
    pub open spec fn wire_fields(self) -> Seq<(Seq<char>, Seq<char>)> {
        seq![("amount"@, json_int(self.amount as int))] + (match self.time_unit {
            Some(u) => seq![("timeUnit"@, u.wire_json())],
            None => Seq::empty(),
        })
    }

    /// The limit's JSON wire form.
    pub open spec fn wire_json(self) -> Seq<char> {
        render_obj(self.wire_fields())
    }

    /// Renders the limit to its JSON wire form.
    pub fn to_json(&self) -> (r: String)
        ensures
            r@ == self.wire_json(),
    {
        let ghost q1 = seq![("amount"@, json_int(self.amount as int))];
        let ghost q2 = (match &self.time_unit {
            Some(u) => seq![("timeUnit"@, u.wire_json())],
            None => Seq::empty(),
        });
        let mut fields: Vec<WireField> = Vec::new();
        push_field(
            &mut fields,
            WireField { name: "amount", value: json_int_string(self.amount as i64) },
        );
        proof {
            assert(field_views(fields@) =~= q1);
        }
        match &self.time_unit {
            Some(u) => {
                push_field(&mut fields, WireField { name: "timeUnit", value: u.to_json() });
            },
            None => {},
        }
        proof {
            assert(field_views(fields@) =~= q1 + q2);
            assert(self.wire_fields() == q1 + q2);
        }
        render_object(&fields)
    }
}

impl IndiaDlt {
    /// The members of the identifiers' wire object.
    pub open spec fn wire_fields(self) -> Seq<(Seq<char>, Seq<char>)> {
        opt_str_field("contentTemplateId"@, self.content_template_id) + seq![
            ("principalEntityId"@, json_str(self.principal_entity_id@)),
        ]
    }

    /// The identifiers' JSON wire form.
    pub open spec fn wire_json(self) -> Seq<char> {
        render_obj(self.wire_fields())
    }

    /// Renders the identifiers to their JSON wire form.
    pub fn to_json(&self) -> (r: String)
        ensures
            r@ == self.wire_json(),
    {
        let ghost q1 = opt_str_field("contentTemplateId"@, self.content_template_id);
        let mut fields: Vec<WireField> = Vec::new();
        match &self.content_template_id {
            Some(c) => {
                push_field(
                    &mut fields,
                    WireField { name: "contentTemplateId", value: json_string(c.as_str()) },
                );
                proof {
                    assert(field_views(fields@) =~= q1);
                }
            },
            None => {
                proof {
                    assert(field_views(fields@) =~= q1);
                }
            },
        }
        push_field(
            &mut fields,
            WireField {
                name: "principalEntityId",
                value: json_string(self.principal_entity_id.as_str()),
            },
        );
        proof {
            assert(field_views(fields@) =~= self.wire_fields());
        }
        render_object(&fields)
    }
}

impl TurkeyIys {
    /// The members of the classification's wire object.
    pub open spec fn wire_fields(self) -> Seq<(Seq<char>, Seq<char>)> {
        opt_i32_field("brandCode"@, self.brand_code) + seq![
            ("recipientType"@, json_str(self.recipient_type@)),
        ]
    }

    /// The classification's JSON wire form.
    pub open spec fn wire_json(self) -> Seq<char> {
        render_obj(self.wire_fields())
    }

    /// Renders the classification to its JSON wire form.
    pub fn to_json(&self) -> (r: String)
        ensures
            r@ == self.wire_json(),
    {
        let ghost q1 = opt_i32_field("brandCode"@, self.brand_code);
        let mut fields: Vec<WireField> = Vec::new();
        match self.brand_code {
            Some(b) => {
                push_field(
                    &mut fields,
                    WireField { name: "brandCode", value: json_int_string(b as i64) },
                );
                proof {
                    assert(field_views(fields@) =~= q1);
                }
            },
            None => {
                proof {
                    assert(field_views(fields@) =~= q1);
                }
            },
        }
        push_field(
            &mut fields,
            WireField { name: "recipientType", value: json_string(self.recipient_type.as_str()) },
        );
        proof {
            assert(field_views(fields@) =~= self.wire_fields());
        }
        render_object(&fields)
    }
}

/// The JSON values of a sequence of days.
pub open spec fn jsons_of_days(s: Seq<DeliveryDay>) -> Seq<Seq<char>> {
    s.map_values(|d: DeliveryDay| d.wire_json())
}

/// The JSON values of a sequence of destinations.
pub open spec fn jsons_of_destinations(s: Seq<Destination>) -> Seq<Seq<char>> {
    s.map_values(|d: Destination| d.wire_json())
}

/// The JSON values of a sequence of messages.
pub open spec fn jsons_of_messages(s: Seq<Message>) -> Seq<Seq<char>> {
    s.map_values(|m: Message| m.wire_json())
}

impl DeliveryTimeWindow {
    /// The members of the window's wire object.
    pub open spec fn wire_fields(self) -> Seq<(Seq<char>, Seq<char>)> {
        seq![("days"@, render_arr(jsons_of_days(self.days@)))] + (match self.from {
            Some(t) => seq![("from"@, t.wire_json())],
            None => Seq::empty(),
        }) + (match self.to {
            Some(t) => seq![("to"@, t.wire_json())],
            None => Seq::empty(),
        })
    }

    /// The window's JSON wire form.
    pub open spec fn wire_json(self) -> Seq<char> {
        render_obj(self.wire_fields())
    }

    /// Renders the window to its JSON wire form.
    pub fn to_json(&self) -> (r: String)
        ensures
            r@ == self.wire_json(),
    {
        let ghost q1 = seq![("days"@, render_arr(jsons_of_days(self.days@)))];
        let ghost q2 = (match &self.from {
            Some(t) => seq![("from"@, t.wire_json())],
            None => Seq::empty(),
        });
        let ghost q3 = (match &self.to {
            Some(t) => seq![("to"@, t.wire_json())],
            None => Seq::empty(),
        });
        let mut elems: Vec<String> = Vec::new();
        let mut i: usize = 0;
        while i < self.days.len()
            invariant
                i <= self.days@.len(),
                elem_views(elems@) == jsons_of_days(self.days@.take(i as int)),
            decreases self.days@.len() - i,
        {
            let ghost prev = elem_views(elems@);
            let day_json = self.days[i].to_json();
            elems.push(day_json);
            proof {
                assert(elem_views(elems@) =~= prev.push(day_json@));
                assert(self.days@.take(i + 1) =~= self.days@.take(i as int).push(
                    self.days@[i as int],
                ));
                assert(jsons_of_days(self.days@.take(i as int).push(self.days@[i as int])) =~= (
                jsons_of_days(self.days@.take(i as int)).push(self.days@[i as int].wire_json())));
            }
            i += 1;
        }
        proof {
            assert(self.days@.take(self.days@.len() as int) =~= self.days@);
        }
        let mut fields: Vec<WireField> = Vec::new();
        push_field(&mut fields, WireField { name: "days", value: render_array(&elems) });
        proof {
            assert(field_views(fields@) =~= q1);
        }
        match &self.from {
            Some(t) => {
                push_field(&mut fields, WireField { name: "from", value: t.to_json() });
            },
            None => {},
        }
        proof {
            assert(field_views(fields@) =~= q1 + q2);
        }
        match &self.to {
            Some(t) => {
                push_field(&mut fields, WireField { name: "to", value: t.to_json() });
            },
            None => {},
        }
        proof {
            assert(field_views(fields@) =~= q1 + q2 + q3);
            assert(self.wire_fields() == q1 + q2 + q3);
        }
        render_object(&fields)
    }
}

impl RegionalOptions {
    /// The members of the options' wire object.
    pub open spec fn wire_fields(self) -> Seq<(Seq<char>, Seq<char>)> {
        (match self.india_dlt {
            Some(d) => seq![("indiaDlt"@, d.wire_json())],
            None => Seq::empty(),
        }) + (match self.turkey_iys {
            Some(t) => seq![("turkeyIys"@, t.wire_json())],
            None => Seq::empty(),
        })
    }

    /// The options' JSON wire form.
    pub open spec fn wire_json(self) -> Seq<char> {
        render_obj(self.wire_fields())
    }

    /// Renders the options to their JSON wire form.
    pub fn to_json(&self) -> (r: String)
        ensures
            r@ == self.wire_json(),
    {
        let ghost q1 = (match &self.india_dlt {
            Some(d) => seq![("indiaDlt"@, d.wire_json())],
            None => Seq::empty(),
        });
        let ghost q2 = (match &self.turkey_iys {
            Some(t) => seq![("turkeyIys"@, t.wire_json())],
            None => Seq::empty(),
        });
        let mut fields: Vec<WireField> = Vec::new();
        match &self.india_dlt {
            Some(d) => {
                push_field(&mut fields, WireField { name: "indiaDlt", value: d.to_json() });
            },
            None => {},
        }
        proof {
            assert(field_views(fields@) =~= q1);
        }
        match &self.turkey_iys {
            Some(t) => {
                push_field(&mut fields, WireField { name: "turkeyIys", value: t.to_json() });
            },
            None => {},
        }
        proof {
            assert(field_views(fields@) =~= q1 + q2);
            assert(self.wire_fields() == q1 + q2);
        }
        render_object(&fields)
    }
}

impl Message {
    /// The members of the message's wire object.
    pub open spec fn wire_fields(self) -> Seq<(Seq<char>, Seq<char>)> {
        seq![("destinations"@, render_arr(jsons_of_destinations(self.destinations@)))]
            + opt_str_field("from"@, self.from) + opt_str_field("text"@, self.text)
            + opt_str_field("callbackData"@, self.callback_data) + (match self
            .delivery_time_window {
            Some(w) => seq![("deliveryTimeWindow"@, w.wire_json())],
            None => Seq::empty(),
        }) + opt_str_field("notifyUrl"@, self.notify_url) + (match self.regional {
            Some(r) => seq![("regional"@, r.wire_json())],
            None => Seq::empty(),
        }) + opt_str_field("transliteration"@, self.transliteration)
    }

    /// The message's JSON wire form.
    pub open spec fn wire_json(self) -> Seq<char> {
        render_obj(self.wire_fields())
    }

    /// Renders the message to its JSON wire form.
    #[verifier::rlimit(100)]
    pub fn to_json(&self) -> (r: String)
        ensures
            r@ == self.wire_json(),
    {
        let ghost q1 = seq![
            ("destinations"@, render_arr(jsons_of_destinations(self.destinations@))),
        ];
        let ghost q2 = opt_str_field("from"@, self.from);
        let ghost q3 = opt_str_field("text"@, self.text);
        let ghost q4 = opt_str_field("callbackData"@, self.callback_data);
        let ghost q5 = (match &self.delivery_time_window {
            Some(w) => seq![("deliveryTimeWindow"@, w.wire_json())],
            None => Seq::empty(),
        });
        let ghost q6 = opt_str_field("notifyUrl"@, self.notify_url);
        let ghost q7 = (match &self.regional {
            Some(r) => seq![("regional"@, r.wire_json())],
            None => Seq::empty(),
        });
        let ghost q8 = opt_str_field("transliteration"@, self.transliteration);
        let mut elems: Vec<String> = Vec::new();
        let mut i: usize = 0;
        while i < self.destinations.len()
            invariant
                i <= self.destinations@.len(),
                elem_views(elems@) == jsons_of_destinations(self.destinations@.take(i as int)),
            decreases self.destinations@.len() - i,
        {
            let ghost prev = elem_views(elems@);
            let dest_json = self.destinations[i].to_json();
            elems.push(dest_json);
            proof {
                assert(elem_views(elems@) =~= prev.push(dest_json@));
                assert(self.destinations@.take(i + 1) =~= self.destinations@.take(i as int).push(
                    self.destinations@[i as int],
                ));
                assert(jsons_of_destinations(
                    self.destinations@.take(i as int).push(self.destinations@[i as int]),
                ) =~= (jsons_of_destinations(self.destinations@.take(i as int)).push(
                    self.destinations@[i as int].wire_json(),
                )));
            }
            i += 1;
        }
        proof {
            assert(self.destinations@.take(self.destinations@.len() as int)
                =~= self.destinations@);
        }
        let mut fields: Vec<WireField> = Vec::new();
        push_field(&mut fields, WireField { name: "destinations", value: render_array(&elems) });
        proof {
            assert(field_views(fields@) =~= q1);
        }
        match &self.from {
            Some(v) => {
                push_field(&mut fields, WireField { name: "from", value: json_string(v.as_str()) });
            },
            None => {},
        }
        proof {
            assert(field_views(fields@) =~= q1 + q2);
        }
        match &self.text {
            Some(v) => {
                push_field(&mut fields, WireField { name: "text", value: json_string(v.as_str()) });
            },
            None => {},
        }
        proof {
            assert(field_views(fields@) =~= q1 + q2 + q3);
        }
        match &self.callback_data {
            Some(v) => {
                push_field(
                    &mut fields,
                    WireField { name: "callbackData", value: json_string(v.as_str()) },
                );
            },
            None => {},
        }
        proof {
            assert(field_views(fields@) =~= q1 + q2 + q3 + q4);
        }
        match &self.delivery_time_window {
            Some(w) => {
                push_field(
                    &mut fields,
                    WireField { name: "deliveryTimeWindow", value: w.to_json() },
                );
            },
            None => {},
        }
        proof {
            assert(field_views(fields@) =~= q1 + q2 + q3 + q4 + q5);
        }
        match &self.notify_url {
            Some(v) => {
                push_field(
                    &mut fields,
                    WireField { name: "notifyUrl", value: json_string(v.as_str()) },
                );
            },
            None => {},
        }
        proof {
            assert(field_views(fields@) =~= q1 + q2 + q3 + q4 + q5 + q6);
        }
        match &self.regional {
            Some(r) => {
                push_field(&mut fields, WireField { name: "regional", value: r.to_json() });
            },
            None => {},
        }
        proof {
            assert(field_views(fields@) =~= q1 + q2 + q3 + q4 + q5 + q6 + q7);
        }
        match &self.transliteration {
            Some(v) => {
                push_field(
                    &mut fields,
                    WireField { name: "transliteration", value: json_string(v.as_str()) },
                );
            },
            None => {},
        }
        proof {
            assert(field_views(fields@) =~= q1 + q2 + q3 + q4 + q5 + q6 + q7 + q8);
            assert(self.wire_fields() == q1 + q2 + q3 + q4 + q5 + q6 + q7 + q8);
        }
        render_object(&fields)
    }
}

impl SendRequestBody {
    /// The members of the request's wire object.
    pub open spec fn wire_fields(self) -> Seq<(Seq<char>, Seq<char>)> {
        opt_str_field("bulkId"@, self.bulk_id) + seq![
            ("messages"@, render_arr(jsons_of_messages(self.messages@))),
        ] + (match self.sending_speed_limit {
            Some(sl) => seq![("sendingSpeedLimit"@, sl.wire_json())],
            None => Seq::empty(),
        })
    }

    /// The request's JSON wire form.
    pub open spec fn wire_json(self) -> Seq<char> {
        render_obj(self.wire_fields())
    }

    /// Renders the request to its JSON wire form.
    pub fn to_json(&self) -> (r: String)
        ensures
            r@ == self.wire_json(),
    {
        let ghost q1 = opt_str_field("bulkId"@, self.bulk_id);
        let ghost q2 = seq![("messages"@, render_arr(jsons_of_messages(self.messages@)))];
        let ghost q3 = (match &self.sending_speed_limit {
            Some(sl) => seq![("sendingSpeedLimit"@, sl.wire_json())],
            None => Seq::empty(),
        });
        let mut elems: Vec<String> = Vec::new();
        let mut i: usize = 0;
        while i < self.messages.len()
            invariant
                i <= self.messages@.len(),
                elem_views(elems@) == jsons_of_messages(self.messages@.take(i as int)),
            decreases self.messages@.len() - i,
        {
            let ghost prev = elem_views(elems@);
            let message_json = self.messages[i].to_json();
            elems.push(message_json);
            proof {
                assert(elem_views(elems@) =~= prev.push(message_json@));
                assert(self.messages@.take(i + 1) =~= self.messages@.take(i as int).push(
                    self.messages@[i as int],
                ));
                assert(jsons_of_messages(self.messages@.take(i as int).push(
                    self.messages@[i as int],
                )) =~= (jsons_of_messages(self.messages@.take(i as int)).push(
                    self.messages@[i as int].wire_json(),
                )));
            }
            i += 1;
        }
        proof {
            assert(self.messages@.take(self.messages@.len() as int) =~= self.messages@);
        }
        let mut fields: Vec<WireField> = Vec::new();
        match &self.bulk_id {
            Some(v) => {
                push_field(
                    &mut fields,
                    WireField { name: "bulkId", value: json_string(v.as_str()) },
                );
            },
            None => {},
        }
        proof {
            assert(field_views(fields@) =~= q1);
        }
        push_field(&mut fields, WireField { name: "messages", value: render_array(&elems) });
        proof {
            assert(field_views(fields@) =~= q1 + q2);
        }
        match &self.sending_speed_limit {
            Some(sl) => {
                push_field(
                    &mut fields,
                    WireField { name: "sendingSpeedLimit", value: sl.to_json() },
                );
            },
            None => {},
        }
        proof {
            assert(field_views(fields@) =~= q1 + q2 + q3);
            assert(self.wire_fields() == q1 + q2 + q3);
        }
        render_object(&fields)
    }
}

/// Law: an optional field left unset contributes no member to the
/// destination's wire object.
pub proof fn lemma_unset_fields_omitted_destination(d: Destination)
    ensures
        d.message_id is None ==> !names_of(d.wire_fields()).contains("messageId"@),
{
    reveal_strlit("messageId");
    reveal_strlit("to");
    assert("messageId"@.len() == 9 && "to"@.len() == 2);
    if d.message_id is None {
        assert(!names_of(d.wire_fields()).contains("messageId"@));
    }
}

/// Law: an optional field left unset contributes no member to the speed
/// limit's wire object.
pub proof fn lemma_unset_fields_omitted_speed_limit(sl: SpeedLimit)
    ensures
        sl.time_unit is None ==> !names_of(sl.wire_fields()).contains("timeUnit"@),
{
    reveal_strlit("timeUnit");
    reveal_strlit("amount");
    assert("timeUnit"@.len() == 8 && "amount"@.len() == 6);
    if sl.time_unit is None {
        assert(!names_of(sl.wire_fields()).contains("timeUnit"@));
    }
}

/// Law: an optional field left unset contributes no member to the window's
/// wire object.
pub proof fn lemma_unset_fields_omitted_window(w: DeliveryTimeWindow)
    ensures
        w.from is None ==> !names_of(w.wire_fields()).contains("from"@),
        w.to is None ==> !names_of(w.wire_fields()).contains("to"@),
{
    reveal_strlit("days");
    reveal_strlit("from");
    reveal_strlit("to");
    assert("days"@.len() == 4 && "from"@.len() == 4 && "to"@.len() == 2);
    assert("days"@[0] == 'd' && "from"@[0] == 'f');
    if w.from is None {
        assert(!names_of(w.wire_fields()).contains("from"@));
    }
    if w.to is None {
        assert(!names_of(w.wire_fields()).contains("to"@));
    }
}

/// Law: an optional field left unset contributes no member to the Indian
/// identifiers' wire object.
pub proof fn lemma_unset_fields_omitted_india_dlt(d: IndiaDlt)
    ensures
        d.content_template_id is None ==> !names_of(d.wire_fields()).contains(
            "contentTemplateId"@,
        ),
{
    reveal_strlit("contentTemplateId");
    reveal_strlit("principalEntityId");
    assert("contentTemplateId"@.len() == 17 && "principalEntityId"@.len() == 17);
    assert("contentTemplateId"@[0] == 'c' && "principalEntityId"@[0] == 'p');
    if d.content_template_id is None {
        assert(!names_of(d.wire_fields()).contains("contentTemplateId"@));
    }
}

/// Law: an optional field left unset contributes no member to the Turkish
/// classification's wire object.
pub proof fn lemma_unset_fields_omitted_turkey_iys(t: TurkeyIys)
    ensures
        t.brand_code is None ==> !names_of(t.wire_fields()).contains("brandCode"@),
{
    reveal_strlit("brandCode");
    reveal_strlit("recipientType");
    assert("brandCode"@.len() == 9 && "recipientType"@.len() == 13);
    if t.brand_code is None {
        assert(!names_of(t.wire_fields()).contains("brandCode"@));
    }
}

/// Law: an optional sub-object left unset contributes no member to the
/// regional options' wire object.
pub proof fn lemma_unset_fields_omitted_regional(r: RegionalOptions)
    ensures
        r.india_dlt is None ==> !names_of(r.wire_fields()).contains("indiaDlt"@),
        r.turkey_iys is None ==> !names_of(r.wire_fields()).contains("turkeyIys"@),
{
    reveal_strlit("indiaDlt");
    reveal_strlit("turkeyIys");
    assert("indiaDlt"@.len() == 8 && "turkeyIys"@.len() == 9);
    if r.india_dlt is None {
        assert(!names_of(r.wire_fields()).contains("indiaDlt"@));
    }
    if r.turkey_iys is None {
        assert(!names_of(r.wire_fields()).contains("turkeyIys"@));
    }
}

/// Law: an optional field left unset contributes no member to the message's
/// wire object.
#[verifier::rlimit(100)]
pub proof fn lemma_unset_fields_omitted_message(m: Message)
    ensures
        m.from is None ==> !names_of(m.wire_fields()).contains("from"@),
        m.text is None ==> !names_of(m.wire_fields()).contains("text"@),
        m.callback_data is None ==> !names_of(m.wire_fields()).contains("callbackData"@),
        m.delivery_time_window is None ==> !names_of(m.wire_fields()).contains(
            "deliveryTimeWindow"@,
        ),
        m.notify_url is None ==> !names_of(m.wire_fields()).contains("notifyUrl"@),
        m.regional is None ==> !names_of(m.wire_fields()).contains("regional"@),
        m.transliteration is None ==> !names_of(m.wire_fields()).contains("transliteration"@),
{
    reveal_strlit("destinations");
    reveal_strlit("from");
    reveal_strlit("text");
    reveal_strlit("callbackData");
    reveal_strlit("deliveryTimeWindow");
    reveal_strlit("notifyUrl");
    reveal_strlit("regional");
    reveal_strlit("transliteration");
    assert("destinations"@.len() == 12 && "from"@.len() == 4 && "text"@.len() == 4
        && "callbackData"@.len() == 12 && "deliveryTimeWindow"@.len() == 18 && "notifyUrl"@.len()
        == 9 && "regional"@.len() == 8 && "transliteration"@.len() == 15);
    assert("destinations"@[0] == 'd' && "callbackData"@[0] == 'c');
    assert("from"@[0] == 'f' && "text"@[0] == 't');
    if m.from is None {
        assert(!names_of(m.wire_fields()).contains("from"@));
    }
    if m.text is None {
        assert(!names_of(m.wire_fields()).contains("text"@));
    }
    if m.callback_data is None {
        assert(!names_of(m.wire_fields()).contains("callbackData"@));
    }
    if m.delivery_time_window is None {
        assert(!names_of(m.wire_fields()).contains("deliveryTimeWindow"@));
    }
    if m.notify_url is None {
        assert(!names_of(m.wire_fields()).contains("notifyUrl"@));
    }
    if m.regional is None {
        assert(!names_of(m.wire_fields()).contains("regional"@));
    }
    if m.transliteration is None {
        assert(!names_of(m.wire_fields()).contains("transliteration"@));
    }
}

/// Law: an optional field left unset contributes no member to the send
/// request's wire object.
pub proof fn lemma_unset_fields_omitted_send_request(r: SendRequestBody)
    ensures
        r.bulk_id is None ==> !names_of(r.wire_fields()).contains("bulkId"@),
        r.sending_speed_limit is None ==> !names_of(r.wire_fields()).contains(
            "sendingSpeedLimit"@,
        ),
{
    reveal_strlit("bulkId");
    reveal_strlit("messages");
    reveal_strlit("sendingSpeedLimit");
    assert("bulkId"@.len() == 6 && "messages"@.len() == 8 && "sendingSpeedLimit"@.len() == 17);
    if r.bulk_id is None {
        assert(!names_of(r.wire_fields()).contains("bulkId"@));
    }
    if r.sending_speed_limit is None {
        assert(!names_of(r.wire_fields()).contains("sendingSpeedLimit"@));
    }
}

} // verus!
