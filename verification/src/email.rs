//! Request and response shapes for the email endpoints: sending, bulk
//! scheduling, delivery reports, logs, address validation and sending-domain
//! management.
//!
//! Every optional field models absence explicitly with `Option`; an absent
//! field is omitted from the wire document rather than encoded as null.

use vstd::prelude::*;

use crate::validation::{
    char_len, check_url, is_wellformed_url, issue_views, str_eq, Constraint, ValidationErrors,
    ValidationIssue,
};
use crate::wire::{
    field_views, json_bool_string, json_int_string, json_str, json_string, names_of,
    opt_bool_field, opt_i32_field, opt_str_field, push_field, render_obj, render_object,
    DecodeError, WireField,
};

verus! {

/// Request body for sending an email.
#[derive(Clone, Debug, PartialEq, Eq)]
pub struct SendRequestBody {
    /// Email address with optional sender name. Required by the remote API
    /// whenever `template_id` is not present.
    pub from: Option<String>,

    /// Email address of the recipient.
    pub to: String,

    /// CC recipient email address.
    pub cc: Option<String>,

    /// BCC recipient email address.
    pub bcc: Option<String>,

    /// Message subject. Required by the remote API whenever `template_id`
    /// is not present. At most 150 characters.
    pub subject: Option<String>,

    /// Body of the message.
    pub text: Option<String>,

    /// HTML body of the message. When both `html` and `text` are present,
    /// `html` is delivered and `text` is ignored.
    pub html: Option<String>,

    /// AMP HTML body of the message. When present, `html` is mandatory.
    pub amp_html: Option<String>,

    /// Identifier of a remotely stored template used to generate the email
    /// content. When present, `html` and `text` are ignored.
    pub template_id: Option<i32>,

    /// File attachment.
    pub attachment: Option<String>,

    /// An image referenced from the HTML body by `cid:FILENAME` instead of
    /// an external link.
    pub inline_image: Option<String>,

    /// Whether a real-time intermediate delivery report is sent to the
    /// callback server.
    pub intermediate_report: Option<bool>,

    /// The URL on the callback server to which the delivery report is sent.
    pub notify_url: Option<String>,

    /// Preferred delivery report content type: `application/json` or
    /// `application/xml`.
    pub notify_content_type: Option<String>,

    /// Additional client data echoed to the notify URL. At most 4000
    /// characters.
    pub callback_data: Option<String>,

    /// Enables or disables open and click tracking as a whole; `track_clicks`
    /// and `track_opens` override it.
    pub track: Option<bool>,

    /// Enables or disables click tracking.
    pub track_clicks: Option<bool>,

    /// Enables or disables open tracking.
    pub track_opens: Option<bool>,

    /// The URL on the callback server to which open and click notifications
    /// are sent.
    pub tracking_url: Option<String>,

    /// Identifier of the whole send request, used to query delivery reports
    /// for all its messages at once. Generated remotely when not set.
    pub bulk_id: Option<String>,

    /// Identifier of the message sent to a recipient.
    pub message_id: Option<String>,

    /// Email address to which recipients can reply.
    pub reply_to: Option<String>,

    /// General placeholder document whose keys are substituted anywhere in
    /// the email.
    pub default_placeholders: Option<String>,

    /// When true, recipients see the full recipient list and the response
    /// returns a single message identifier.
    pub preserve_recipients: Option<bool>,

    /// Schedules the message at a future time, UTC, in the format
    /// `yyyy-MM-dd'T'HH:mm:ss.SSSZ`.
    pub send_at: Option<String>,

    /// Placeholders for the opt-out landing page.
    pub landing_page_placeholders: Option<String>,

    /// Identifier of the opt-out landing page shown after an unsubscribe.
    pub landing_page_id: Option<String>,
}

impl SendRequestBody {
    /// A request holding only the required recipient; every optional field
    /// is absent.
    pub fn new(to: String) -> (r: Self)
        ensures
            r.to@ == to@,
            r.from is None,
            r.cc is None,
            r.bcc is None,
            r.subject is None,
            r.text is None,
            r.html is None,
            r.amp_html is None,
            r.template_id is None,
            r.attachment is None,
            r.inline_image is None,
            r.intermediate_report is None,
            r.notify_url is None,
            r.notify_content_type is None,
            r.callback_data is None,
            r.track is None,
            r.track_clicks is None,
            r.track_opens is None,
            r.tracking_url is None,
            r.bulk_id is None,
            r.message_id is None,
            r.reply_to is None,
            r.default_placeholders is None,
            r.preserve_recipients is None,
            r.send_at is None,
            r.landing_page_placeholders is None,
            r.landing_page_id is None,
    {
        SendRequestBody {
            from: None,
            to,
            cc: None,
            bcc: None,
            subject: None,
            text: None,
            html: None,
            amp_html: None,
            template_id: None,
            attachment: None,
            inline_image: None,
            intermediate_report: None,
            notify_url: None,
            notify_content_type: None,
            callback_data: None,
            track: None,
            track_clicks: None,
            track_opens: None,
            tracking_url: None,
            bulk_id: None,
            message_id: None,
            reply_to: None,
            default_placeholders: None,
            preserve_recipients: None,
            send_at: None,
            landing_page_placeholders: None,
            landing_page_id: None,
        }
    }

    /// Every violation the request's fields hold, in field order.
    pub open spec fn issues(self) -> Seq<(Seq<char>, Constraint)> {
        crate::validation::violation_when(self.to@.len() < 1, "to"@, Constraint::LengthMin(1))
            + (match self.subject {
                Some(s) => crate::validation::violation_when(
                    s@.len() < 1,
                    "subject"@,
                    Constraint::LengthMin(1),
                ) + crate::validation::violation_when(
                    s@.len() > 150,
                    "subject"@,
                    Constraint::LengthMax(150),
                ),
                None => Seq::empty(),
            })
            + (match self.notify_url {
                Some(u) => crate::validation::violation_when(
                    !is_wellformed_url(u@),
                    "notify_url"@,
                    Constraint::Url,
                ),
                None => Seq::empty(),
            })
            + (match self.callback_data {
                Some(d) => crate::validation::violation_when(
                    d@.len() > 4000,
                    "callback_data"@,
                    Constraint::LengthMax(4000),
                ),
                None => Seq::empty(),
            })
            + (match self.tracking_url {
                Some(u) => crate::validation::violation_when(
                    !is_wellformed_url(u@),
                    "tracking_url"@,
                    Constraint::Url,
                ),
                None => Seq::empty(),
            })
    }

    /// The constraints the remote API documents for this shape.
    pub open spec fn valid(self) -> bool {
        &&& self.to@.len() >= 1
        &&& (self.subject matches Some(s) ==> 1 <= s@.len() <= 150)
        &&& (self.notify_url matches Some(u) ==> is_wellformed_url(u@))
        &&& (self.callback_data matches Some(d) ==> d@.len() <= 4000)
        &&& (self.tracking_url matches Some(u) ==> is_wellformed_url(u@))
    }

    /// Checks every field constraint and reports every violation.
    pub fn validate(&self) -> (r: Result<(), ValidationErrors>)
        ensures
            r.is_ok() <==> self.valid(),
            r matches Err(e) ==> e@ == self.issues(),
    {
        let mut issues: Vec<ValidationIssue> = Vec::new();
        if char_len(&self.to) < 1 {
            issues.push(ValidationIssue { field: "to", constraint: Constraint::LengthMin(1) });
        }
        match &self.subject {
            Some(s) => {
                let n = char_len(s);
                if n < 1 {
                    issues.push(
                        ValidationIssue { field: "subject", constraint: Constraint::LengthMin(1) },
                    );
                }
                if n > 150 {
                    issues.push(
                        ValidationIssue {
                            field: "subject",
                            constraint: Constraint::LengthMax(150),
                        },
                    );
                }
            },
            None => {},
        }
        match &self.notify_url {
            Some(u) => {
                if !check_url(u.as_str()) {
                    issues.push(
                        ValidationIssue { field: "notify_url", constraint: Constraint::Url },
                    );
                }
            },
            None => {},
        }
        match &self.callback_data {
            Some(d) => {
                if char_len(d) > 4000 {
                    issues.push(
                        ValidationIssue {
                            field: "callback_data",
                            constraint: Constraint::LengthMax(4000),
                        },
                    );
                }
            },
            None => {},
        }
        match &self.tracking_url {
            Some(u) => {
                if !check_url(u.as_str()) {
                    issues.push(
                        ValidationIssue { field: "tracking_url", constraint: Constraint::Url },
                    );
                }
            },
            None => {},
        }
        proof {
            assert(issue_views(issues@) =~= self.issues());
        }
        if issues.len() == 0 {
            Ok(())
        } else {
            Err(ValidationErrors { issues })
        }
    }
}


impl SendRequestBody {
    /// The first third of the request's wire members, in declaration order.
    pub open spec fn wire_fields_head(self) -> Seq<(Seq<char>, Seq<char>)> {
        opt_str_field("from"@, self.from) + seq![("to"@, json_str(self.to@))] + opt_str_field(
            "cc"@,
            self.cc,
        ) + opt_str_field("bcc"@, self.bcc) + opt_str_field("subject"@, self.subject)
            + opt_str_field("text"@, self.text) + opt_str_field("html"@, self.html)
            + opt_str_field("ampHtml"@, self.amp_html) + opt_i32_field(
            "templateId"@,
            self.template_id,
        )
    }

    /// The attachment and notification members of the request's wire object.
    pub open spec fn wire_fields_notify(self) -> Seq<(Seq<char>, Seq<char>)> {
        opt_str_field("attachment"@, self.attachment) + opt_str_field(
            "inlineImage"@,
            self.inline_image,
        ) + opt_bool_field("intermediateReport"@, self.intermediate_report) + opt_str_field(
            "notifyUrl"@,
            self.notify_url,
        ) + opt_str_field("notifyContentType"@, self.notify_content_type) + opt_str_field(
            "callbackData"@,
            self.callback_data,
        )
    }

    /// The tracking-flag members of the request's wire object.
    pub open spec fn wire_fields_track(self) -> Seq<(Seq<char>, Seq<char>)> {
        opt_bool_field("track"@, self.track) + opt_bool_field("trackClicks"@, self.track_clicks)
            + opt_bool_field("trackOpens"@, self.track_opens)
    }

    /// The middle third of the request's wire members.
    pub open spec fn wire_fields_mid(self) -> Seq<(Seq<char>, Seq<char>)> {
        self.wire_fields_notify() + self.wire_fields_track()
    }

    /// The last third of the request's wire members.
    pub open spec fn wire_fields_tail(self) -> Seq<(Seq<char>, Seq<char>)> {
        opt_str_field("trackingUrl"@, self.tracking_url) + opt_str_field("bulkId"@, self.bulk_id)
            + opt_str_field("messageId"@, self.message_id) + opt_str_field(
            "replyTo"@,
            self.reply_to,
        ) + opt_str_field("defaultPlaceholders"@, self.default_placeholders) + opt_bool_field(
            "preserveRecipients"@,
            self.preserve_recipients,
        ) + opt_str_field("sendAt"@, self.send_at) + opt_str_field(
            "landingPagePlaceholders"@,
            self.landing_page_placeholders,
        ) + opt_str_field("landingPageId"@, self.landing_page_id)
    }

    /// The members of the request's wire object.
    pub open spec fn wire_fields(self) -> Seq<(Seq<char>, Seq<char>)> {
        self.wire_fields_head() + self.wire_fields_mid() + self.wire_fields_tail()
    }

    /// The request's JSON wire form.
    pub open spec fn wire_json(self) -> Seq<char> {
        render_obj(self.wire_fields())
    }

    /// Appends the first third of the wire members.
    fn push_fields_head(&self, fields: &mut Vec<WireField>)
        ensures
            field_views(final (fields)@) == field_views(old(fields)@) + self.wire_fields_head(),
    {
        let ghost v0 = field_views(fields@);
        let ghost q1 = opt_str_field("from"@, self.from);
        let ghost q2 = seq![("to"@, json_str(self.to@))];
        let ghost q3 = opt_str_field("cc"@, self.cc);
        let ghost q4 = opt_str_field("bcc"@, self.bcc);
        let ghost q5 = opt_str_field("subject"@, self.subject);
        let ghost q6 = opt_str_field("text"@, self.text);
        let ghost q7 = opt_str_field("html"@, self.html);
        let ghost q8 = opt_str_field("ampHtml"@, self.amp_html);
        let ghost q9 = opt_i32_field("templateId"@, self.template_id);
        match &self.from {
            Some(v) => {
                push_field(fields, WireField { name: "from", value: json_string(v.as_str()) });
            },
            None => {},
        }
        proof {
            assert(field_views(fields@) =~= v0 + q1);
        }
        push_field(fields, WireField { name: "to", value: json_string(self.to.as_str()) });
        proof {
            assert(field_views(fields@) =~= v0 + q1 + q2);
        }
        match &self.cc {
            Some(v) => {
                push_field(fields, WireField { name: "cc", value: json_string(v.as_str()) });
            },
            None => {},
        }
        proof {
            assert(field_views(fields@) =~= v0 + q1 + q2 + q3);
        }
        match &self.bcc {
            Some(v) => {
                push_field(fields, WireField { name: "bcc", value: json_string(v.as_str()) });
            },
            None => {},
        }
        proof {
            assert(field_views(fields@) =~= v0 + q1 + q2 + q3 + q4);
        }
        match &self.subject {
            Some(v) => {
                push_field(fields, WireField { name: "subject", value: json_string(v.as_str()) });
            },
            None => {},
        }
        proof {
            assert(field_views(fields@) =~= v0 + q1 + q2 + q3 + q4 + q5);
        }
        match &self.text {
            Some(v) => {
                push_field(fields, WireField { name: "text", value: json_string(v.as_str()) });
            },
            None => {},
        }
        proof {
            assert(field_views(fields@) =~= v0 + q1 + q2 + q3 + q4 + q5 + q6);
        }
        match &self.html {
            Some(v) => {
                push_field(fields, WireField { name: "html", value: json_string(v.as_str()) });
            },
            None => {},
        }
        proof {
            assert(field_views(fields@) =~= v0 + q1 + q2 + q3 + q4 + q5 + q6 + q7);
        }
        match &self.amp_html {
            Some(v) => {
                push_field(fields, WireField { name: "ampHtml", value: json_string(v.as_str()) });
            },
            None => {},
        }
        proof {
            assert(field_views(fields@) =~= v0 + q1 + q2 + q3 + q4 + q5 + q6 + q7 + q8);
        }
        match self.template_id {
            Some(v) => {
                push_field(
                    fields,
                    WireField { name: "templateId", value: json_int_string(v as i64) },
                );
            },
            None => {},
        }
        proof {
            assert(field_views(fields@) =~= v0 + q1 + q2 + q3 + q4 + q5 + q6 + q7 + q8 + q9);
            crate::validation::lemma_concat_assoc9(v0, q1, q2, q3, q4, q5, q6, q7, q8, q9);
            assert(self.wire_fields_head() == q1 + q2 + q3 + q4 + q5 + q6 + q7 + q8 + q9);
        }
    }

    /// Appends the attachment and notification members.
    fn push_fields_notify(&self, fields: &mut Vec<WireField>)
        ensures
            field_views(final (fields)@) == field_views(old(fields)@) + self.wire_fields_notify(),
    {
        let ghost v0 = field_views(fields@);
        let ghost q1 = opt_str_field("attachment"@, self.attachment);
        let ghost q2 = opt_str_field("inlineImage"@, self.inline_image);
        let ghost q3 = opt_bool_field("intermediateReport"@, self.intermediate_report);
        let ghost q4 = opt_str_field("notifyUrl"@, self.notify_url);
        let ghost q5 = opt_str_field("notifyContentType"@, self.notify_content_type);
        let ghost q6 = opt_str_field("callbackData"@, self.callback_data);
        match &self.attachment {
            Some(v) => {
                push_field(
                    fields,
                    WireField { name: "attachment", value: json_string(v.as_str()) },
                );
            },
            None => {},
        }
        proof {
            assert(field_views(fields@) =~= v0 + q1);
        }
        let ghost v1 = field_views(fields@);
        match &self.inline_image {
            Some(v) => {
                push_field(
                    fields,
                    WireField { name: "inlineImage", value: json_string(v.as_str()) },
                );
            },
            None => {},
        }
        proof {
            assert(field_views(fields@) =~= v1 + q2);
        }
        let ghost v2 = field_views(fields@);
        match self.intermediate_report {
            Some(v) => {
                push_field(
                    fields,
                    WireField { name: "intermediateReport", value: json_bool_string(v) },
                );
            },
            None => {},
        }
        proof {
            assert(field_views(fields@) =~= v2 + q3);
        }
        let ghost v3 = field_views(fields@);
        match &self.notify_url {
            Some(v) => {
                push_field(fields, WireField { name: "notifyUrl", value: json_string(v.as_str()) });
            },
            None => {},
        }
        proof {
            assert(field_views(fields@) =~= v3 + q4);
        }
        let ghost v4 = field_views(fields@);
        match &self.notify_content_type {
            Some(v) => {
                push_field(
                    fields,
                    WireField { name: "notifyContentType", value: json_string(v.as_str()) },
                );
            },
            None => {},
        }
        proof {
            assert(field_views(fields@) =~= v4 + q5);
        }
        let ghost v5 = field_views(fields@);
        match &self.callback_data {
            Some(v) => {
                push_field(
                    fields,
                    WireField { name: "callbackData", value: json_string(v.as_str()) },
                );
            },
            None => {},
        }
        proof {
            assert(field_views(fields@) =~= v5 + q6);
            assert(field_views(fields@) == v0 + q1 + q2 + q3 + q4 + q5 + q6);
            crate::validation::lemma_concat_assoc6(v0, q1, q2, q3, q4, q5, q6);
            assert(self.wire_fields_notify() == q1 + q2 + q3 + q4 + q5 + q6);
        }
    }

    /// Appends the tracking-flag members.
    fn push_fields_track(&self, fields: &mut Vec<WireField>)
        ensures
            field_views(final (fields)@) == field_views(old(fields)@) + self.wire_fields_track(),
    {
        let ghost v0 = field_views(fields@);
        let ghost q1 = opt_bool_field("track"@, self.track);
        let ghost q2 = opt_bool_field("trackClicks"@, self.track_clicks);
        let ghost q3 = opt_bool_field("trackOpens"@, self.track_opens);
        match self.track {
            Some(v) => {
                push_field(fields, WireField { name: "track", value: json_bool_string(v) });
            },
            None => {},
        }
        proof {
            assert(field_views(fields@) =~= v0 + q1);
        }
        let ghost v1 = field_views(fields@);
        match self.track_clicks {
            Some(v) => {
                push_field(fields, WireField { name: "trackClicks", value: json_bool_string(v) });
            },
            None => {},
        }
        proof {
            assert(field_views(fields@) =~= v1 + q2);
        }
        let ghost v2 = field_views(fields@);
        match self.track_opens {
            Some(v) => {
                push_field(fields, WireField { name: "trackOpens", value: json_bool_string(v) });
            },
            None => {},
        }
        proof {
            assert(field_views(fields@) =~= v2 + q3);
            assert(field_views(fields@) == v0 + q1 + q2 + q3);
            crate::validation::lemma_concat_assoc3(v0, q1, q2, q3);
            assert(self.wire_fields_track() == q1 + q2 + q3);
        }
    }

    /// Appends the middle third of the wire members.
    fn push_fields_mid(&self, fields: &mut Vec<WireField>)
        ensures
            field_views(final (fields)@) == field_views(old(fields)@) + self.wire_fields_mid(),
    {
        let ghost v0 = field_views(fields@);
        self.push_fields_notify(fields);
        self.push_fields_track(fields);
        proof {
            crate::validation::lemma_concat_assoc2(
                v0,
                self.wire_fields_notify(),
                self.wire_fields_track(),
            );
        }
    }

    /// Appends the last third of the wire members.
    #[verifier::rlimit(100)]
    fn push_fields_tail(&self, fields: &mut Vec<WireField>)
        ensures
            field_views(final (fields)@) == field_views(old(fields)@) + self.wire_fields_tail(),
    {
        let ghost v0 = field_views(fields@);
        let ghost q1 = opt_str_field("trackingUrl"@, self.tracking_url);
        let ghost q2 = opt_str_field("bulkId"@, self.bulk_id);
        let ghost q3 = opt_str_field("messageId"@, self.message_id);
        let ghost q4 = opt_str_field("replyTo"@, self.reply_to);
        let ghost q5 = opt_str_field("defaultPlaceholders"@, self.default_placeholders);
        let ghost q6 = opt_bool_field("preserveRecipients"@, self.preserve_recipients);
        let ghost q7 = opt_str_field("sendAt"@, self.send_at);
        let ghost q8 = opt_str_field("landingPagePlaceholders"@, self.landing_page_placeholders);
        let ghost q9 = opt_str_field("landingPageId"@, self.landing_page_id);
        match &self.tracking_url {
            Some(v) => {
                push_field(
                    fields,
                    WireField { name: "trackingUrl", value: json_string(v.as_str()) },
                );
            },
            None => {},
        }
        proof {
            assert(field_views(fields@) =~= v0 + q1);
        }
        match &self.bulk_id {
            Some(v) => {
                push_field(fields, WireField { name: "bulkId", value: json_string(v.as_str()) });
            },
            None => {},
        }
        proof {
            assert(field_views(fields@) =~= v0 + q1 + q2);
        }
        match &self.message_id {
            Some(v) => {
                push_field(fields, WireField { name: "messageId", value: json_string(v.as_str()) });
            },
            None => {},
        }
        proof {
            assert(field_views(fields@) =~= v0 + q1 + q2 + q3);
        }
        match &self.reply_to {
            Some(v) => {
                push_field(fields, WireField { name: "replyTo", value: json_string(v.as_str()) });
            },
            None => {},
        }
        proof {
            assert(field_views(fields@) =~= v0 + q1 + q2 + q3 + q4);
        }
        match &self.default_placeholders {
            Some(v) => {
                push_field(
                    fields,
                    WireField { name: "defaultPlaceholders", value: json_string(v.as_str()) },
                );
            },
            None => {},
        }
        proof {
            assert(field_views(fields@) =~= v0 + q1 + q2 + q3 + q4 + q5);
        }
        match self.preserve_recipients {
            Some(v) => {
                push_field(
                    fields,
                    WireField { name: "preserveRecipients", value: json_bool_string(v) },
                );
            },
            None => {},
        }
        proof {
            assert(field_views(fields@) =~= v0 + q1 + q2 + q3 + q4 + q5 + q6);
        }
        match &self.send_at {
            Some(v) => {
                push_field(fields, WireField { name: "sendAt", value: json_string(v.as_str()) });
            },
            None => {},
        }
        proof {
            assert(field_views(fields@) =~= v0 + q1 + q2 + q3 + q4 + q5 + q6 + q7);
        }
        match &self.landing_page_placeholders {
            Some(v) => {
                push_field(
                    fields,
                    WireField { name: "landingPagePlaceholders", value: json_string(v.as_str()) },
                );
            },
            None => {},
        }
        proof {
            assert(field_views(fields@) =~= v0 + q1 + q2 + q3 + q4 + q5 + q6 + q7 + q8);
        }
        match &self.landing_page_id {
            Some(v) => {
                push_field(
                    fields,
                    WireField { name: "landingPageId", value: json_string(v.as_str()) },
                );
            },
            None => {},
        }
        proof {
            assert(field_views(fields@) =~= v0 + q1 + q2 + q3 + q4 + q5 + q6 + q7 + q8 + q9);
            crate::validation::lemma_concat_assoc9(v0, q1, q2, q3, q4, q5, q6, q7, q8, q9);
            assert(self.wire_fields_tail() == q1 + q2 + q3 + q4 + q5 + q6 + q7 + q8 + q9);
        }
    }

    /// Renders the request to its JSON wire form.
    pub fn to_json(&self) -> (r: String)
        ensures
            r@ == self.wire_json(),
    {
        let mut fields: Vec<WireField> = Vec::new();
        proof {
            assert(field_views(fields@) =~= Seq::<(Seq<char>, Seq<char>)>::empty());
        }
        self.push_fields_head(&mut fields);
        proof {
            crate::validation::lemma_concat_empty(self.wire_fields_head());
        }
        self.push_fields_mid(&mut fields);
        self.push_fields_tail(&mut fields);
        proof {
            assert(field_views(fields@) == self.wire_fields());
        }
        render_object(&fields)
    }
}

/// The names every email send request member can carry are pairwise
/// distinct; revealing them lets the omission laws below tell them apart.
proof fn lemma_email_wire_names_distinct()
    ensures
        "from"@.len() == 4 && "to"@.len() == 2 && "cc"@.len() == 2 && "bcc"@.len() == 3
            && "subject"@.len() == 7 && "text"@.len() == 4 && "html"@.len() == 4
            && "ampHtml"@.len() == 7 && "templateId"@.len() == 10,
        "attachment"@.len() == 10 && "inlineImage"@.len() == 11 && "intermediateReport"@.len()
            == 18 && "notifyUrl"@.len() == 9 && "notifyContentType"@.len() == 17
            && "callbackData"@.len() == 12 && "track"@.len() == 5 && "trackClicks"@.len() == 11
            && "trackOpens"@.len() == 10,
        "trackingUrl"@.len() == 11 && "bulkId"@.len() == 6 && "messageId"@.len() == 9
            && "replyTo"@.len() == 7 && "defaultPlaceholders"@.len() == 19
            && "preserveRecipients"@.len() == 18 && "sendAt"@.len() == 6
            && "landingPagePlaceholders"@.len() == 23 && "landingPageId"@.len() == 13,
        "to"@[0] == 't' && "cc"@[0] == 'c',
        "from"@[0] == 'f' && "text"@[0] == 't' && "html"@[0] == 'h',
        "bulkId"@[0] == 'b' && "sendAt"@[0] == 's',
        "subject"@[0] == 's' && "ampHtml"@[0] == 'a' && "replyTo"@[0] == 'r',
        "notifyUrl"@[0] == 'n' && "messageId"@[0] == 'm',
        "templateId"@[0] == 't' && "attachment"@[0] == 'a' && "trackOpens"@[0] == 't',
        "templateId"@[1] == 'e' && "trackOpens"@[1] == 'r',
        "inlineImage"@[0] == 'i' && "trackClicks"@[0] == 't' && "trackingUrl"@[0] == 't',
        "trackClicks"@[5] == 'C' && "trackingUrl"@[5] == 'i',
        "intermediateReport"@[0] == 'i' && "preserveRecipients"@[0] == 'p',
{
    reveal_strlit("from");
    reveal_strlit("to");
    reveal_strlit("cc");
    reveal_strlit("bcc");
    reveal_strlit("subject");
    reveal_strlit("text");
    reveal_strlit("html");
    reveal_strlit("ampHtml");
    reveal_strlit("templateId");
    reveal_strlit("attachment");
    reveal_strlit("inlineImage");
    reveal_strlit("intermediateReport");
    reveal_strlit("notifyUrl");
    reveal_strlit("notifyContentType");
    reveal_strlit("callbackData");
    reveal_strlit("track");
    reveal_strlit("trackClicks");
    reveal_strlit("trackOpens");
    reveal_strlit("trackingUrl");
    reveal_strlit("bulkId");
    reveal_strlit("messageId");
    reveal_strlit("replyTo");
    reveal_strlit("defaultPlaceholders");
    reveal_strlit("preserveRecipients");
    reveal_strlit("sendAt");
    reveal_strlit("landingPagePlaceholders");
    reveal_strlit("landingPageId");
}

/// Any member name of this part of the wire object is one of its fixed
/// names, and an optional field's name occurs only when the field is set.
#[verifier::rlimit(100)]
proof fn lemma_head_member_names(r: SendRequestBody, x: Seq<char>)
    requires
        names_of(r.wire_fields_head()).contains(x),
    ensures
        x == "from"@ || x == "to"@ || x == "cc"@ || x == "bcc"@ || x == "subject"@ || x == "text"@ || x == "html"@ || x == "ampHtml"@ || x == "templateId"@,
        x == "from"@ ==> r.from is Some,
        x == "cc"@ ==> r.cc is Some,
        x == "bcc"@ ==> r.bcc is Some,
        x == "subject"@ ==> r.subject is Some,
        x == "text"@ ==> r.text is Some,
        x == "html"@ ==> r.html is Some,
        x == "ampHtml"@ ==> r.amp_html is Some,
        x == "templateId"@ ==> r.template_id is Some,
{
    lemma_email_wire_names_distinct();
}


/// Any member name of this part of the wire object is one of its fixed
/// names, and an optional field's name occurs only when the field is set.
#[verifier::rlimit(100)]
proof fn lemma_mid_member_names(r: SendRequestBody, x: Seq<char>)
    requires
        names_of(r.wire_fields_mid()).contains(x),
    ensures
        x == "attachment"@ || x == "inlineImage"@ || x == "intermediateReport"@ || x == "notifyUrl"@ || x == "notifyContentType"@ || x == "callbackData"@ || x == "track"@ || x == "trackClicks"@ || x == "trackOpens"@,
        x == "attachment"@ ==> r.attachment is Some,
        x == "inlineImage"@ ==> r.inline_image is Some,
        x == "intermediateReport"@ ==> r.intermediate_report is Some,
        x == "notifyUrl"@ ==> r.notify_url is Some,
        x == "notifyContentType"@ ==> r.notify_content_type is Some,
        x == "callbackData"@ ==> r.callback_data is Some,
        x == "track"@ ==> r.track is Some,
        x == "trackClicks"@ ==> r.track_clicks is Some,
        x == "trackOpens"@ ==> r.track_opens is Some,
{
    lemma_email_wire_names_distinct();
}


/// Any member name of this part of the wire object is one of its fixed
/// names, and an optional field's name occurs only when the field is set.
#[verifier::rlimit(100)]
proof fn lemma_tail_member_names(r: SendRequestBody, x: Seq<char>)
    requires
        names_of(r.wire_fields_tail()).contains(x),
    ensures
        x == "trackingUrl"@ || x == "bulkId"@ || x == "messageId"@ || x == "replyTo"@ || x == "defaultPlaceholders"@ || x == "preserveRecipients"@ || x == "sendAt"@ || x == "landingPagePlaceholders"@ || x == "landingPageId"@,
        x == "trackingUrl"@ ==> r.tracking_url is Some,
        x == "bulkId"@ ==> r.bulk_id is Some,
        x == "messageId"@ ==> r.message_id is Some,
        x == "replyTo"@ ==> r.reply_to is Some,
        x == "defaultPlaceholders"@ ==> r.default_placeholders is Some,
        x == "preserveRecipients"@ ==> r.preserve_recipients is Some,
        x == "sendAt"@ ==> r.send_at is Some,
        x == "landingPagePlaceholders"@ ==> r.landing_page_placeholders is Some,
        x == "landingPageId"@ ==> r.landing_page_id is Some,
{
    lemma_email_wire_names_distinct();
}


/// Law: an optional addressing or content field left unset contributes no
/// member to the email send request's wire object.
#[verifier::rlimit(100)]
pub proof fn lemma_unset_head_fields_omitted_email(r: SendRequestBody)
    ensures
        r.from is None ==> !names_of(r.wire_fields()).contains("from"@),
        r.cc is None ==> !names_of(r.wire_fields()).contains("cc"@),
        r.bcc is None ==> !names_of(r.wire_fields()).contains("bcc"@),
        r.subject is None ==> !names_of(r.wire_fields()).contains("subject"@),
        r.text is None ==> !names_of(r.wire_fields()).contains("text"@),
        r.html is None ==> !names_of(r.wire_fields()).contains("html"@),
        r.amp_html is None ==> !names_of(r.wire_fields()).contains("ampHtml"@),
        r.template_id is None ==> !names_of(r.wire_fields()).contains("templateId"@),
{
    lemma_email_wire_names_distinct();
    let nh = names_of(r.wire_fields_head());
    let nm = names_of(r.wire_fields_mid());
    let nt = names_of(r.wire_fields_tail());
    assert(names_of(r.wire_fields()) =~= nh + nm + nt);
    if r.from is None && names_of(r.wire_fields()).contains("from"@) {
        crate::validation::lemma_contains_concat(nh + nm, nt, "from"@);
        crate::validation::lemma_contains_concat(nh, nm, "from"@);
        if nh.contains("from"@) {
            lemma_head_member_names(r, "from"@);
        }
        if nm.contains("from"@) {
            lemma_mid_member_names(r, "from"@);
        }
        if nt.contains("from"@) {
            lemma_tail_member_names(r, "from"@);
        }
        assert(false);
    }
    if r.cc is None && names_of(r.wire_fields()).contains("cc"@) {
        crate::validation::lemma_contains_concat(nh + nm, nt, "cc"@);
        crate::validation::lemma_contains_concat(nh, nm, "cc"@);
        if nh.contains("cc"@) {
            lemma_head_member_names(r, "cc"@);
        }
        if nm.contains("cc"@) {
            lemma_mid_member_names(r, "cc"@);
        }
        if nt.contains("cc"@) {
            lemma_tail_member_names(r, "cc"@);
        }
        assert(false);
    }
    if r.bcc is None && names_of(r.wire_fields()).contains("bcc"@) {
        crate::validation::lemma_contains_concat(nh + nm, nt, "bcc"@);
        crate::validation::lemma_contains_concat(nh, nm, "bcc"@);
        if nh.contains("bcc"@) {
            lemma_head_member_names(r, "bcc"@);
        }
        if nm.contains("bcc"@) {
            lemma_mid_member_names(r, "bcc"@);
        }
        if nt.contains("bcc"@) {
            lemma_tail_member_names(r, "bcc"@);
        }
        assert(false);
    }
    if r.subject is None && names_of(r.wire_fields()).contains("subject"@) {
        crate::validation::lemma_contains_concat(nh + nm, nt, "subject"@);
        crate::validation::lemma_contains_concat(nh, nm, "subject"@);
        if nh.contains("subject"@) {
            lemma_head_member_names(r, "subject"@);
        }
        if nm.contains("subject"@) {
            lemma_mid_member_names(r, "subject"@);
        }
        if nt.contains("subject"@) {
            lemma_tail_member_names(r, "subject"@);
        }
        assert(false);
    }
    if r.text is None && names_of(r.wire_fields()).contains("text"@) {
        crate::validation::lemma_contains_concat(nh + nm, nt, "text"@);
        crate::validation::lemma_contains_concat(nh, nm, "text"@);
        if nh.contains("text"@) {
            lemma_head_member_names(r, "text"@);
        }
        if nm.contains("text"@) {
            lemma_mid_member_names(r, "text"@);
        }
        if nt.contains("text"@) {
            lemma_tail_member_names(r, "text"@);
        }
        assert(false);
    }
    if r.html is None && names_of(r.wire_fields()).contains("html"@) {
        crate::validation::lemma_contains_concat(nh + nm, nt, "html"@);
        crate::validation::lemma_contains_concat(nh, nm, "html"@);
        if nh.contains("html"@) {
            lemma_head_member_names(r, "html"@);
        }
        if nm.contains("html"@) {
            lemma_mid_member_names(r, "html"@);
        }
        if nt.contains("html"@) {
            lemma_tail_member_names(r, "html"@);
        }
        assert(false);
    }
    if r.amp_html is None && names_of(r.wire_fields()).contains("ampHtml"@) {
        crate::validation::lemma_contains_concat(nh + nm, nt, "ampHtml"@);
        crate::validation::lemma_contains_concat(nh, nm, "ampHtml"@);
        if nh.contains("ampHtml"@) {
            lemma_head_member_names(r, "ampHtml"@);
        }
        if nm.contains("ampHtml"@) {
            lemma_mid_member_names(r, "ampHtml"@);
        }
        if nt.contains("ampHtml"@) {
            lemma_tail_member_names(r, "ampHtml"@);
        }
        assert(false);
    }
    if r.template_id is None && names_of(r.wire_fields()).contains("templateId"@) {
        crate::validation::lemma_contains_concat(nh + nm, nt, "templateId"@);
        crate::validation::lemma_contains_concat(nh, nm, "templateId"@);
        if nh.contains("templateId"@) {
            lemma_head_member_names(r, "templateId"@);
        }
        if nm.contains("templateId"@) {
            lemma_mid_member_names(r, "templateId"@);
        }
        if nt.contains("templateId"@) {
            lemma_tail_member_names(r, "templateId"@);
        }
        assert(false);
    }
}

/// Law: an optional attachment, notification or tracking-flag field left
/// unset contributes no member to the email send request's wire object.
#[verifier::rlimit(100)]
pub proof fn lemma_unset_mid_fields_omitted_email(r: SendRequestBody)
    ensures
        r.attachment is None ==> !names_of(r.wire_fields()).contains("attachment"@),
        r.inline_image is None ==> !names_of(r.wire_fields()).contains("inlineImage"@),
        r.intermediate_report is None ==> !names_of(r.wire_fields()).contains("intermediateReport"@),
        r.notify_url is None ==> !names_of(r.wire_fields()).contains("notifyUrl"@),
        r.notify_content_type is None ==> !names_of(r.wire_fields()).contains("notifyContentType"@),
        r.callback_data is None ==> !names_of(r.wire_fields()).contains("callbackData"@),
        r.track is None ==> !names_of(r.wire_fields()).contains("track"@),
        r.track_clicks is None ==> !names_of(r.wire_fields()).contains("trackClicks"@),
        r.track_opens is None ==> !names_of(r.wire_fields()).contains("trackOpens"@),
{
    lemma_email_wire_names_distinct();
    let nh = names_of(r.wire_fields_head());
    let nm = names_of(r.wire_fields_mid());
    let nt = names_of(r.wire_fields_tail());
    assert(names_of(r.wire_fields()) =~= nh + nm + nt);
    if r.attachment is None && names_of(r.wire_fields()).contains("attachment"@) {
        crate::validation::lemma_contains_concat(nh + nm, nt, "attachment"@);
        crate::validation::lemma_contains_concat(nh, nm, "attachment"@);
        if nh.contains("attachment"@) {
            lemma_head_member_names(r, "attachment"@);
        }
        if nm.contains("attachment"@) {
            lemma_mid_member_names(r, "attachment"@);
        }
        if nt.contains("attachment"@) {
            lemma_tail_member_names(r, "attachment"@);
        }
        assert(false);
    }
    if r.inline_image is None && names_of(r.wire_fields()).contains("inlineImage"@) {
        crate::validation::lemma_contains_concat(nh + nm, nt, "inlineImage"@);
        crate::validation::lemma_contains_concat(nh, nm, "inlineImage"@);
        if nh.contains("inlineImage"@) {
            lemma_head_member_names(r, "inlineImage"@);
        }
        if nm.contains("inlineImage"@) {
            lemma_mid_member_names(r, "inlineImage"@);
        }
        if nt.contains("inlineImage"@) {
            lemma_tail_member_names(r, "inlineImage"@);
        }
        assert(false);
    }
    if r.intermediate_report is None && names_of(r.wire_fields()).contains("intermediateReport"@) {
        crate::validation::lemma_contains_concat(nh + nm, nt, "intermediateReport"@);
        crate::validation::lemma_contains_concat(nh, nm, "intermediateReport"@);
        if nh.contains("intermediateReport"@) {
            lemma_head_member_names(r, "intermediateReport"@);
        }
        if nm.contains("intermediateReport"@) {
            lemma_mid_member_names(r, "intermediateReport"@);
        }
        if nt.contains("intermediateReport"@) {
            lemma_tail_member_names(r, "intermediateReport"@);
        }
        assert(false);
    }
    if r.notify_url is None && names_of(r.wire_fields()).contains("notifyUrl"@) {
        crate::validation::lemma_contains_concat(nh + nm, nt, "notifyUrl"@);
        crate::validation::lemma_contains_concat(nh, nm, "notifyUrl"@);
        if nh.contains("notifyUrl"@) {
            lemma_head_member_names(r, "notifyUrl"@);
        }
        if nm.contains("notifyUrl"@) {
            lemma_mid_member_names(r, "notifyUrl"@);
        }
        if nt.contains("notifyUrl"@) {
            lemma_tail_member_names(r, "notifyUrl"@);
        }
        assert(false);
    }
    if r.notify_content_type is None && names_of(r.wire_fields()).contains("notifyContentType"@) {
        crate::validation::lemma_contains_concat(nh + nm, nt, "notifyContentType"@);
        crate::validation::lemma_contains_concat(nh, nm, "notifyContentType"@);
        if nh.contains("notifyContentType"@) {
            lemma_head_member_names(r, "notifyContentType"@);
        }
        if nm.contains("notifyContentType"@) {
            lemma_mid_member_names(r, "notifyContentType"@);
        }
        if nt.contains("notifyContentType"@) {
            lemma_tail_member_names(r, "notifyContentType"@);
        }
        assert(false);
    }
    if r.callback_data is None && names_of(r.wire_fields()).contains("callbackData"@) {
        crate::validation::lemma_contains_concat(nh + nm, nt, "callbackData"@);
        crate::validation::lemma_contains_concat(nh, nm, "callbackData"@);
        if nh.contains("callbackData"@) {
            lemma_head_member_names(r, "callbackData"@);
        }
        if nm.contains("callbackData"@) {
            lemma_mid_member_names(r, "callbackData"@);
        }
        if nt.contains("callbackData"@) {
            lemma_tail_member_names(r, "callbackData"@);
        }
        assert(false);
    }
    if r.track is None && names_of(r.wire_fields()).contains("track"@) {
        crate::validation::lemma_contains_concat(nh + nm, nt, "track"@);
        crate::validation::lemma_contains_concat(nh, nm, "track"@);
        if nh.contains("track"@) {
            lemma_head_member_names(r, "track"@);
        }
        if nm.contains("track"@) {
            lemma_mid_member_names(r, "track"@);
        }
        if nt.contains("track"@) {
            lemma_tail_member_names(r, "track"@);
        }
        assert(false);
    }
    if r.track_clicks is None && names_of(r.wire_fields()).contains("trackClicks"@) {
        crate::validation::lemma_contains_concat(nh + nm, nt, "trackClicks"@);
        crate::validation::lemma_contains_concat(nh, nm, "trackClicks"@);
        if nh.contains("trackClicks"@) {
            lemma_head_member_names(r, "trackClicks"@);
        }
        if nm.contains("trackClicks"@) {
            lemma_mid_member_names(r, "trackClicks"@);
        }
        if nt.contains("trackClicks"@) {
            lemma_tail_member_names(r, "trackClicks"@);
        }
        assert(false);
    }
    if r.track_opens is None && names_of(r.wire_fields()).contains("trackOpens"@) {
        crate::validation::lemma_contains_concat(nh + nm, nt, "trackOpens"@);
        crate::validation::lemma_contains_concat(nh, nm, "trackOpens"@);
        if nh.contains("trackOpens"@) {
            lemma_head_member_names(r, "trackOpens"@);
        }
        if nm.contains("trackOpens"@) {
            lemma_mid_member_names(r, "trackOpens"@);
        }
        if nt.contains("trackOpens"@) {
            lemma_tail_member_names(r, "trackOpens"@);
        }
        assert(false);
    }
}

/// Law: an optional scheduling or reporting field left unset contributes no
/// member to the email send request's wire object.
#[verifier::rlimit(100)]
pub proof fn lemma_unset_tail_fields_omitted_email(r: SendRequestBody)
    ensures
        r.tracking_url is None ==> !names_of(r.wire_fields()).contains("trackingUrl"@),
        r.bulk_id is None ==> !names_of(r.wire_fields()).contains("bulkId"@),
        r.message_id is None ==> !names_of(r.wire_fields()).contains("messageId"@),
        r.reply_to is None ==> !names_of(r.wire_fields()).contains("replyTo"@),
        r.default_placeholders is None ==> !names_of(r.wire_fields()).contains("defaultPlaceholders"@),
        r.preserve_recipients is None ==> !names_of(r.wire_fields()).contains("preserveRecipients"@),
        r.send_at is None ==> !names_of(r.wire_fields()).contains("sendAt"@),
        r.landing_page_placeholders is None ==> !names_of(r.wire_fields()).contains("landingPagePlaceholders"@),
        r.landing_page_id is None ==> !names_of(r.wire_fields()).contains("landingPageId"@),
{
    lemma_email_wire_names_distinct();
    let nh = names_of(r.wire_fields_head());
    let nm = names_of(r.wire_fields_mid());
    let nt = names_of(r.wire_fields_tail());
    assert(names_of(r.wire_fields()) =~= nh + nm + nt);
    if r.tracking_url is None && names_of(r.wire_fields()).contains("trackingUrl"@) {
        crate::validation::lemma_contains_concat(nh + nm, nt, "trackingUrl"@);
        crate::validation::lemma_contains_concat(nh, nm, "trackingUrl"@);
        if nh.contains("trackingUrl"@) {
            lemma_head_member_names(r, "trackingUrl"@);
        }
        if nm.contains("trackingUrl"@) {
            lemma_mid_member_names(r, "trackingUrl"@);
        }
        if nt.contains("trackingUrl"@) {
            lemma_tail_member_names(r, "trackingUrl"@);
        }
        assert(false);
    }
    if r.bulk_id is None && names_of(r.wire_fields()).contains("bulkId"@) {
        crate::validation::lemma_contains_concat(nh + nm, nt, "bulkId"@);
        crate::validation::lemma_contains_concat(nh, nm, "bulkId"@);
        if nh.contains("bulkId"@) {
            lemma_head_member_names(r, "bulkId"@);
        }
        if nm.contains("bulkId"@) {
            lemma_mid_member_names(r, "bulkId"@);
        }
        if nt.contains("bulkId"@) {
            lemma_tail_member_names(r, "bulkId"@);
        }
        assert(false);
    }
    if r.message_id is None && names_of(r.wire_fields()).contains("messageId"@) {
        crate::validation::lemma_contains_concat(nh + nm, nt, "messageId"@);
        crate::validation::lemma_contains_concat(nh, nm, "messageId"@);
        if nh.contains("messageId"@) {
            lemma_head_member_names(r, "messageId"@);
        }
        if nm.contains("messageId"@) {
            lemma_mid_member_names(r, "messageId"@);
        }
        if nt.contains("messageId"@) {
            lemma_tail_member_names(r, "messageId"@);
        }
        assert(false);
    }
    if r.reply_to is None && names_of(r.wire_fields()).contains("replyTo"@) {
        crate::validation::lemma_contains_concat(nh + nm, nt, "replyTo"@);
        crate::validation::lemma_contains_concat(nh, nm, "replyTo"@);
        if nh.contains("replyTo"@) {
            lemma_head_member_names(r, "replyTo"@);
        }
        if nm.contains("replyTo"@) {
            lemma_mid_member_names(r, "replyTo"@);
        }
        if nt.contains("replyTo"@) {
            lemma_tail_member_names(r, "replyTo"@);
        }
        assert(false);
    }
    if r.default_placeholders is None && names_of(r.wire_fields()).contains("defaultPlaceholders"@) {
        crate::validation::lemma_contains_concat(nh + nm, nt, "defaultPlaceholders"@);
        crate::validation::lemma_contains_concat(nh, nm, "defaultPlaceholders"@);
        if nh.contains("defaultPlaceholders"@) {
            lemma_head_member_names(r, "defaultPlaceholders"@);
        }
        if nm.contains("defaultPlaceholders"@) {
            lemma_mid_member_names(r, "defaultPlaceholders"@);
        }
        if nt.contains("defaultPlaceholders"@) {
            lemma_tail_member_names(r, "defaultPlaceholders"@);
        }
        assert(false);
    }
    if r.preserve_recipients is None && names_of(r.wire_fields()).contains("preserveRecipients"@) {
        crate::validation::lemma_contains_concat(nh + nm, nt, "preserveRecipients"@);
        crate::validation::lemma_contains_concat(nh, nm, "preserveRecipients"@);
        if nh.contains("preserveRecipients"@) {
            lemma_head_member_names(r, "preserveRecipients"@);
        }
        if nm.contains("preserveRecipients"@) {
            lemma_mid_member_names(r, "preserveRecipients"@);
        }
        if nt.contains("preserveRecipients"@) {
            lemma_tail_member_names(r, "preserveRecipients"@);
        }
        assert(false);
    }
    if r.send_at is None && names_of(r.wire_fields()).contains("sendAt"@) {
        crate::validation::lemma_contains_concat(nh + nm, nt, "sendAt"@);
        crate::validation::lemma_contains_concat(nh, nm, "sendAt"@);
        if nh.contains("sendAt"@) {
            lemma_head_member_names(r, "sendAt"@);
        }
        if nm.contains("sendAt"@) {
            lemma_mid_member_names(r, "sendAt"@);
        }
        if nt.contains("sendAt"@) {
            lemma_tail_member_names(r, "sendAt"@);
        }
        assert(false);
    }
    if r.landing_page_placeholders is None && names_of(r.wire_fields()).contains("landingPagePlaceholders"@) {
        crate::validation::lemma_contains_concat(nh + nm, nt, "landingPagePlaceholders"@);
        crate::validation::lemma_contains_concat(nh, nm, "landingPagePlaceholders"@);
        if nh.contains("landingPagePlaceholders"@) {
            lemma_head_member_names(r, "landingPagePlaceholders"@);
        }
        if nm.contains("landingPagePlaceholders"@) {
            lemma_mid_member_names(r, "landingPagePlaceholders"@);
        }
        if nt.contains("landingPagePlaceholders"@) {
            lemma_tail_member_names(r, "landingPagePlaceholders"@);
        }
        assert(false);
    }
    if r.landing_page_id is None && names_of(r.wire_fields()).contains("landingPageId"@) {
        crate::validation::lemma_contains_concat(nh + nm, nt, "landingPageId"@);
        crate::validation::lemma_contains_concat(nh, nm, "landingPageId"@);
        if nh.contains("landingPageId"@) {
            lemma_head_member_names(r, "landingPageId"@);
        }
        if nm.contains("landingPageId"@) {
            lemma_mid_member_names(r, "landingPageId"@);
        }
        if nt.contains("landingPageId"@) {
            lemma_tail_member_names(r, "landingPageId"@);
        }
        assert(false);
    }
}

/// Law: a send request that carries only its required recipient — every
/// optional field absent — passes validation whenever the recipient is
/// non-empty.
pub proof fn lemma_minimal_send_request_valid(r: SendRequestBody)
    requires
        r.to@.len() >= 1,
        r.subject is None,
        r.notify_url is None,
        r.callback_data is None,
        r.tracking_url is None,
    ensures
        r.valid(),
{
}

/// Law: a subject longer than 150 characters, or callback data longer than
/// 4000 characters, fails validation of the whole request.
pub proof fn lemma_bounded_strings_rejected(r: SendRequestBody)
    ensures
        (r.subject matches Some(s) && s@.len() > 150) ==> !r.valid(),
        (r.callback_data matches Some(d) && d@.len() > 4000) ==> !r.valid(),
{
}

/// One per-recipient outcome inside a send response.
#[derive(Clone, Debug, PartialEq, Eq)]
pub struct SentMessageDetails {
    /// The destination address of the message.
    pub to: Option<String>,

    /// The identifier of this message response.
    pub message_id: Option<String>,

    /// The delivery status descriptor.
    pub status: Option<Status>,
}

/// A coded classification of a delivery failure cause.
#[derive(Clone, Debug, PartialEq, Eq, Default)]
pub struct ReportError {
    pub group_id: Option<i32>,
    pub group_name: Option<String>,
    pub id: Option<i32>,
    pub name: Option<String>,
    pub description: Option<String>,
    pub permanent: Option<bool>,
}

/// A coded classification of a delivery outcome.
#[derive(Clone, Debug, PartialEq, Eq)]
pub struct Status {
    /// Status group identifier.
    pub group_id: Option<i32>,

    /// Status group name.
    pub group_name: Option<String>,

    /// Status identifier.
    pub id: Option<i32>,

    /// Status name.
    pub name: Option<String>,

    /// Status description.
    pub description: Option<String>,

    /// Action name.
    pub action: Option<String>,
}

/// Response body for a send request.
#[derive(Clone, Debug, PartialEq, Eq)]
pub struct SendResponseBody {
    /// The identifier of this list of message responses.
    pub bulk_id: Option<String>,

    /// The per-recipient outcomes.
    pub messages: Option<Vec<SentMessageDetails>>,
}

/// Query parameters for looking a bulk up by its identifier.
#[derive(Clone, Debug, PartialEq, Eq)]
pub struct GetBulksQueryParameters {
    pub bulk_id: String,
}

impl GetBulksQueryParameters {
    pub fn new(bulk_id: &str) -> (r: Self)
        ensures
            r.bulk_id@ == bulk_id@,
    {
        GetBulksQueryParameters { bulk_id: bulk_id.to_owned() }
    }

    /// Every violation the parameters hold.
    pub open spec fn issues(self) -> Seq<(Seq<char>, Constraint)> {
        crate::validation::violation_when(
            self.bulk_id@.len() < 1,
            "bulk_id"@,
            Constraint::LengthMin(1),
        )
    }

    /// The bulk identifier must be non-empty.
    pub open spec fn valid(self) -> bool {
        self.bulk_id@.len() >= 1
    }

    pub fn validate(&self) -> (r: Result<(), ValidationErrors>)
        ensures
            r.is_ok() <==> self.valid(),
            r matches Err(e) ==> e@ == self.issues(),
    {
        let mut issues: Vec<ValidationIssue> = Vec::new();
        if char_len(&self.bulk_id) < 1 {
            issues.push(ValidationIssue { field: "bulk_id", constraint: Constraint::LengthMin(1) });
        }
        proof {
            assert(issue_views(issues@) =~= self.issues());
        }
        if issues.len() == 0 {
            Ok(())
        } else {
            Err(ValidationErrors { issues })
        }
    }
}

/// Law: the minimal bulk query — a non-empty bulk identifier — passes
/// validation.
pub proof fn lemma_minimal_bulk_query_valid(q: GetBulksQueryParameters)
    requires
        q.bulk_id@.len() >= 1,
    ensures
        q.valid(),
{
}

/// Response body listing the bulks tied to an external bulk identifier.
#[derive(Clone, Debug, PartialEq, Eq, Default)]
pub struct GetBulksResponseBody {
    pub external_bulk_id: Option<String>,
    pub bulks: Option<Vec<BulkInfo>>,
}

/// A bulk identifier with its scheduled send time.
#[derive(Clone, Debug, PartialEq, Eq, Default)]
pub struct BulkInfo {
    pub bulk_id: Option<String>,
    pub send_at: Option<u64>,
}

pub type RescheduleQueryParameters = GetBulksQueryParameters;

/// Request body that moves a scheduled bulk to a new send time.
#[derive(Clone, Debug, PartialEq, Eq)]
pub struct RescheduleRequestBody {
    pub send_at: String,
}

impl RescheduleRequestBody {
    pub fn new(send_at: &str) -> (r: Self)
        ensures
            r.send_at@ == send_at@,
    {
        RescheduleRequestBody { send_at: send_at.to_owned() }
    }

    /// Every violation the request holds.
    pub open spec fn issues(self) -> Seq<(Seq<char>, Constraint)> {
        crate::validation::violation_when(
            self.send_at@.len() < 1,
            "send_at"@,
            Constraint::LengthMin(1),
        )
    }

    /// The scheduled-time string must be non-empty.
    pub open spec fn valid(self) -> bool {
        self.send_at@.len() >= 1
    }

    pub fn validate(&self) -> (r: Result<(), ValidationErrors>)
        ensures
            r.is_ok() <==> self.valid(),
            r matches Err(e) ==> e@ == self.issues(),
    {
        let mut issues: Vec<ValidationIssue> = Vec::new();
        if char_len(&self.send_at) < 1 {
            issues.push(ValidationIssue { field: "send_at", constraint: Constraint::LengthMin(1) });
        }
        proof {
            assert(issue_views(issues@) =~= self.issues());
        }
        if issues.len() == 0 {
            Ok(())
        } else {
            Err(ValidationErrors { issues })
        }
    }
}

/// Law: the minimal reschedule request — a non-empty scheduled-time string —
/// passes validation.
pub proof fn lemma_minimal_reschedule_valid(r: RescheduleRequestBody)
    requires
        r.send_at@.len() >= 1,
    ensures
        r.valid(),
{
}

pub type RescheduleResponseBody = BulkInfo;

pub type GetScheduledStatusQueryParameters = GetBulksQueryParameters;

/// Coarse lifecycle status of a scheduled bulk; transitions happen on the
/// remote system.
#[allow(non_camel_case_types)]
#[derive(Clone, Copy, Debug, Eq, PartialEq, Ord, PartialOrd, Hash)]
pub enum BulkStatus {
    PENDING,
    PAUSED,
    PROCESSING,
    CANCELED,
    FINISHED,
    FAILED,
}


impl BulkStatus {
    /// The fixed wire token of the status.
    pub open spec fn spec_token(self) -> Seq<char> {
        match self {
            BulkStatus::PENDING => "PENDING"@,
            BulkStatus::PAUSED => "PAUSED"@,
            BulkStatus::PROCESSING => "PROCESSING"@,
            BulkStatus::CANCELED => "CANCELED"@,
            BulkStatus::FINISHED => "FINISHED"@,
            BulkStatus::FAILED => "FAILED"@,
        }
    }

    /// The token the status serializes to.
    pub fn token(&self) -> (r: &'static str)
        ensures
            r@ == self.spec_token(),
    {
        match self {
            BulkStatus::PENDING => "PENDING",
            BulkStatus::PAUSED => "PAUSED",
            BulkStatus::PROCESSING => "PROCESSING",
            BulkStatus::CANCELED => "CANCELED",
            BulkStatus::FINISHED => "FINISHED",
            BulkStatus::FAILED => "FAILED",
        }
    }

    /// Decodes a wire token; an unrecognized token is a decoding error, not
    /// a fallback.
    pub fn from_token(s: &str) -> (r: Result<BulkStatus, DecodeError>)
        ensures
            s@ == "PENDING"@ ==> r == Ok::<BulkStatus, DecodeError>(BulkStatus::PENDING),
            s@ == "PAUSED"@ ==> r == Ok::<BulkStatus, DecodeError>(BulkStatus::PAUSED),
            s@ == "PROCESSING"@ ==> r == Ok::<BulkStatus, DecodeError>(BulkStatus::PROCESSING),
            s@ == "CANCELED"@ ==> r == Ok::<BulkStatus, DecodeError>(BulkStatus::CANCELED),
            s@ == "FINISHED"@ ==> r == Ok::<BulkStatus, DecodeError>(BulkStatus::FINISHED),
            s@ == "FAILED"@ ==> r == Ok::<BulkStatus, DecodeError>(BulkStatus::FAILED),
            !(s@ == "PENDING"@ || s@ == "PAUSED"@ || s@ == "PROCESSING"@ || s@ == "CANCELED"@
                || s@ == "FINISHED"@ || s@ == "FAILED"@) ==> r is Err,
    {
        proof {
            reveal_strlit("PENDING");
            reveal_strlit("PAUSED");
            reveal_strlit("PROCESSING");
            reveal_strlit("CANCELED");
            reveal_strlit("FINISHED");
            reveal_strlit("FAILED");
            assert("PENDING"@.len() == 7 && "PAUSED"@.len() == 6 && "PROCESSING"@.len() == 10
                && "CANCELED"@.len() == 8 && "FINISHED"@.len() == 8 && "FAILED"@.len() == 6);
            assert("PAUSED"@[0] == 'P' && "FAILED"@[0] == 'F');
            assert("CANCELED"@[0] == 'C' && "FINISHED"@[0] == 'F');
        }
        if str_eq(s, "PENDING") {
            Ok(BulkStatus::PENDING)
        } else if str_eq(s, "PAUSED") {
            Ok(BulkStatus::PAUSED)
        } else if str_eq(s, "PROCESSING") {
            Ok(BulkStatus::PROCESSING)
        } else if str_eq(s, "CANCELED") {
            Ok(BulkStatus::CANCELED)
        } else if str_eq(s, "FINISHED") {
            Ok(BulkStatus::FINISHED)
        } else if str_eq(s, "FAILED") {
            Ok(BulkStatus::FAILED)
        } else {
            Err(DecodeError::new())
        }
    }
}

/// A bulk identifier with its lifecycle status.
#[derive(Clone, Debug, PartialEq, Eq, Default)]
pub struct BulkStatusInfo {
    pub bulk_id: Option<String>,
    pub status: Option<BulkStatus>,
}

/// Response body listing the statuses of the bulks tied to an external bulk
/// identifier.
#[derive(Clone, Debug, PartialEq, Eq, Default)]
pub struct GetScheduledStatusResponseBody {
    pub external_bulk_id: Option<String>,
    pub bulks: Option<Vec<BulkStatusInfo>>,
}

pub type UpdateScheduledStatusQueryParameters = GetBulksQueryParameters;

/// Request body that moves a scheduled bulk to a new lifecycle status.
#[derive(Clone, Debug, PartialEq, Eq)]
pub struct UpdateScheduledStatusRequestBody {
    pub status: BulkStatus,
}

impl UpdateScheduledStatusRequestBody {
    pub fn new(status: BulkStatus) -> (r: Self)
        ensures
            r.status == status,
    {
        UpdateScheduledStatusRequestBody { status }
    }

    /// The status enumeration is closed, so every value is acceptable.
    pub fn validate(&self) -> (r: Result<(), ValidationErrors>)
        ensures
            r.is_ok(),
    {
        Ok(())
    }
}

pub type UpdateScheduledStatusResponseBody = BulkStatusInfo;

/// Query parameters filtering email delivery reports.
#[derive(Clone, Debug, PartialEq, Eq)]
pub struct GetDeliveryReportsQueryParameters {
    /// Bulk identifier for which reports are requested.
    pub bulk_id: Option<String>,

    /// The identifier of one sent email.
    pub message_id: Option<String>,

    /// Maximum number of reports.
    pub limit: Option<i32>,
}

impl GetDeliveryReportsQueryParameters {
    pub fn new() -> (r: Self)
        ensures
            r.bulk_id is None,
            r.message_id is None,
            r.limit is None,
    {
        GetDeliveryReportsQueryParameters { bulk_id: None, message_id: None, limit: None }
    }

    /// The remote API constrains none of these filters locally.
    pub fn validate(&self) -> (r: Result<(), ValidationErrors>)
        ensures
            r.is_ok(),
    {
        Ok(())
    }
}

impl Default for GetDeliveryReportsQueryParameters {
    fn default() -> (r: Self)
        ensures
            r.bulk_id is None,
            r.message_id is None,
            r.limit is None,
    {
        Self::new()
    }
}

/// Price of one email request. The decimal amount is kept in its textual
/// wire form; this layer does no arithmetic on it.
#[derive(Clone, Debug, PartialEq, Eq, Default)]
pub struct Price {
    /// Price per one email request, as the wire's decimal text.
    pub price_per_message: Option<String>,

    /// The currency in which the price is expressed.
    pub currency: Option<String>,
}

/// A delivery report for one sent email.
#[derive(Clone, Debug, PartialEq, Eq)]
pub struct Report {
    /// The identifier of the whole send request.
    pub bulk_id: Option<String>,

    /// The identifier of the sent email.
    pub message_id: Option<String>,

    /// The recipient email address.
    pub to: Option<String>,

    /// When the email was initiated, as `yyyy-MM-dd'T'HH:mm:ss.SSSZ`.
    pub sent_at: Option<String>,

    /// When the email request was processed remotely.
    pub done_at: Option<String>,

    /// Email request count.
    pub message_count: Option<i32>,

    /// Sent email price.
    pub price: Option<Price>,

    /// Delivery status of the initiated email.
    pub status: Option<Status>,

    /// Failure cause, when one applies.
    pub error: Option<ReportError>,
}

/// Response body listing delivery reports.
#[derive(Clone, Debug, PartialEq, Eq)]
pub struct GetDeliveryReportsResponseBody {
    pub results: Option<Vec<Report>>,
}

/// Query parameters filtering email logs.
#[derive(Clone, Debug, PartialEq, Eq)]
pub struct GetLogsQueryParameters {
    /// The identifier of one sent email.
    pub message_id: Option<String>,

    /// Sender email address.
    pub from: Option<String>,

    /// The recipient email address.
    pub to: Option<String>,

    /// Bulk identifier of the request.
    pub bulk_id: Option<String>,

    /// Coarse delivery status of the initiated email.
    pub general_status: Option<String>,

    /// Lower bound on when the email was initiated.
    pub sent_since: Option<String>,

    /// Upper bound on when the email request was processed.
    pub sent_until: Option<String>,

    /// Maximum number of logs.
    pub limit: Option<i32>,
}

impl GetLogsQueryParameters {
    pub fn new() -> (r: Self)
        ensures
            r.message_id is None,
            r.from is None,
            r.to is None,
            r.bulk_id is None,
            r.general_status is None,
            r.sent_since is None,
            r.sent_until is None,
            r.limit is None,
    {
        GetLogsQueryParameters {
            message_id: None,
            from: None,
            to: None,
            bulk_id: None,
            general_status: None,
            sent_since: None,
            sent_until: None,
            limit: None,
        }
    }

    /// The remote API constrains none of these filters locally.
    pub fn validate(&self) -> (r: Result<(), ValidationErrors>)
        ensures
            r.is_ok(),
    {
        Ok(())
    }
}

impl Default for GetLogsQueryParameters {
    fn default() -> (r: Self)
        ensures
            r.message_id is None,
            r.from is None,
            r.to is None,
            r.bulk_id is None,
            r.general_status is None,
            r.sent_since is None,
            r.sent_until is None,
            r.limit is None,
    {
        Self::new()
    }
}

/// One email log entry.
#[derive(Clone, Debug, PartialEq, Eq)]
pub struct Log {
    /// The identifier of the sent email request.
    pub message_id: Option<String>,

    /// The recipient email address.
    pub to: Option<String>,

    /// Sender email address.
    pub from: Option<String>,

    /// The text from the email body.
    pub text: Option<String>,

    /// When the email was initiated.
    pub sent_at: Option<String>,

    /// When the email request was processed remotely.
    pub done_at: Option<String>,

    /// Email request count.
    pub message_count: Option<i32>,

    /// Sent email price.
    pub price: Option<Price>,

    /// Delivery status of the initiated email.
    pub status: Option<Status>,

    /// The identifier of the whole request.
    pub bulk_id: Option<String>,
}

/// Response body listing email logs.
#[derive(Clone, Debug, PartialEq, Eq)]
pub struct GetLogsResponseBody {
    pub results: Option<Vec<Log>>,
}

impl GetLogsResponseBody {
    /// The shape carries no locally checked constraint.
    pub fn validate(&self) -> (r: Result<(), ValidationErrors>)
        ensures
            r.is_ok(),
    {
        Ok(())
    }
}

/// Request body asking the remote service to validate an email address.
#[derive(Clone, Debug, PartialEq, Eq)]
pub struct ValidateAddressRequestBody {
    to: String,
}

impl ValidateAddressRequestBody {
    /// The address under validation.
    pub closed spec fn spec_to(self) -> Seq<char> {
        self.to@
    }

    pub fn new(to: &str) -> (r: Self)
        ensures
            r.spec_to() == to@,
    {
        ValidateAddressRequestBody { to: to.to_owned() }
    }

    /// Every violation the request holds.
    pub open spec fn issues(self) -> Seq<(Seq<char>, Constraint)> {
        crate::validation::violation_when(
            self.spec_to().len() < 1,
            "to"@,
            Constraint::LengthMin(1),
        )
    }

    /// The address must be non-empty.
    pub open spec fn valid(self) -> bool {
        self.spec_to().len() >= 1
    }

    pub fn validate(&self) -> (r: Result<(), ValidationErrors>)
        ensures
            r.is_ok() <==> self.valid(),
            r matches Err(e) ==> e@ == self.issues(),
    {
        let mut issues: Vec<ValidationIssue> = Vec::new();
        if char_len(&self.to) < 1 {
            issues.push(ValidationIssue { field: "to", constraint: Constraint::LengthMin(1) });
        }
        proof {
            assert(issue_views(issues@) =~= self.issues());
        }
        if issues.len() == 0 {
            Ok(())
        } else {
            Err(ValidationErrors { issues })
        }
    }
}

/// Law: the minimal address-validation request — a non-empty address —
/// passes validation.
pub proof fn lemma_minimal_validate_address_valid(r: ValidateAddressRequestBody)
    requires
        r.spec_to().len() >= 1,
    ensures
        r.valid(),
{
}

/// Response body of a remote address validation.
#[derive(Clone, Debug, PartialEq, Eq, Default)]
pub struct ValidateAddressResponseBody {
    /// The address that was validated.
    pub to: Option<String>,

    /// Mailbox status of the address.
    pub valid_mailbox: Option<String>,

    /// Whether the address is syntactically valid.
    pub valid_syntax: Option<bool>,

    /// Catch-all status of the address's domain.
    pub catch_all: Option<bool>,

    /// A suggested alternate address that may be valid.
    pub did_you_mean: Option<String>,

    /// Whether the address belongs to a disposable provider.
    pub disposable: Option<bool>,

    /// Whether the address is role-based rather than personal.
    pub role_based: Option<bool>,

    /// Why the mailbox status is unknown, when it is: one of INBOX_FULL,
    /// UNEXPECTED_FAILURE, THROTTLED, TIMED_OUT, TEMP_REJECTION,
    /// UNABLE_TO_CONNECT.
    pub reason: Option<String>,
}

/// Query parameters paging through the account's sending domains.
#[derive(Clone, Debug, PartialEq, Eq)]
pub struct GetDomainsQueryParameters {
    /// Number of domains per page, between 1 and 20.
    pub size: Option<i32>,

    /// Page number, at least 1.
    pub page: Option<i32>,
}

impl GetDomainsQueryParameters {
    pub fn new() -> (r: Self)
        ensures
            r.size is None,
            r.page is None,
    {
        GetDomainsQueryParameters { size: None, page: None }
    }

    /// Every violation the parameters hold.
    pub open spec fn issues(self) -> Seq<(Seq<char>, Constraint)> {
        (match self.size {
            Some(s) => crate::validation::violation_when(s < 1, "size"@, Constraint::RangeMin(1))
                + crate::validation::violation_when(s > 20, "size"@, Constraint::RangeMax(20)),
            None => Seq::empty(),
        }) + (match self.page {
            Some(p) => crate::validation::violation_when(p < 1, "page"@, Constraint::RangeMin(1)),
            None => Seq::empty(),
        })
    }

    /// The page size lies between 1 and 20 and the page number is positive.
    pub open spec fn valid(self) -> bool {
        &&& (self.size matches Some(s) ==> 1 <= s <= 20)
        &&& (self.page matches Some(p) ==> p >= 1)
    }

    pub fn validate(&self) -> (r: Result<(), ValidationErrors>)
        ensures
            r.is_ok() <==> self.valid(),
            r matches Err(e) ==> e@ == self.issues(),
    {
        let mut issues: Vec<ValidationIssue> = Vec::new();
        match self.size {
            Some(s) => {
                if s < 1 {
                    issues.push(
                        ValidationIssue { field: "size", constraint: Constraint::RangeMin(1) },
                    );
                }
                if s > 20 {
                    issues.push(
                        ValidationIssue { field: "size", constraint: Constraint::RangeMax(20) },
                    );
                }
            },
            None => {},
        }
        match self.page {
            Some(p) => {
                if p < 1 {
                    issues.push(
                        ValidationIssue { field: "page", constraint: Constraint::RangeMin(1) },
                    );
                }
            },
            None => {},
        }
        proof {
            assert(issue_views(issues@) =~= self.issues());
        }
        if issues.len() == 0 {
            Ok(())
        } else {
            Err(ValidationErrors { issues })
        }
    }
}

impl Default for GetDomainsQueryParameters {
    fn default() -> (r: Self)
        ensures
            r.size is None,
            r.page is None,
    {
        Self::new()
    }
}

/// Law: the minimal domain paging query — both filters absent — passes
/// validation.
pub proof fn lemma_minimal_domains_query_valid(q: GetDomainsQueryParameters)
    requires
        q.size is None,
        q.page is None,
    ensures
        q.valid(),
{
}

/// A domain's tracking configuration.
#[derive(Clone, Debug, PartialEq, Eq, Default)]
pub struct Tracking {
    /// Whether click tracking is enabled.
    pub clicks: Option<bool>,

    /// Whether open tracking is enabled.
    pub opens: Option<bool>,

    /// Whether unsubscribe tracking is enabled.
    pub unsubscribe: Option<bool>,
}

/// A DNS record the domain owner must publish for verification.
#[derive(Clone, Debug, PartialEq, Eq, Default)]
pub struct DnsRecord {
    /// Type of the record.
    pub record_type: Option<String>,

    /// Name of the record.
    pub name: Option<String>,

    /// Expected value to be set for the record.
    pub expected_value: Option<String>,

    /// Whether the record has been verified.
    pub verified: Option<bool>,
}

/// A sending domain: its identity, activation state, DNS verification
/// records and tracking configuration.
#[derive(Clone, Debug, PartialEq, Eq)]
pub struct Domain {
    /// Identifier of the domain.
    pub domain_id: Option<i64>,

    /// Name of the domain.
    pub domain_name: Option<String>,

    /// Activation status of the domain.
    pub active: Option<bool>,

    /// Tracking details of the domain.
    pub tracking: Option<Tracking>,

    /// DNS records for the domain.
    pub dns_records: Option<Vec<DnsRecord>>,

    /// Whether the domain is blocked.
    pub blocked: Option<bool>,

    /// When the domain was created, as `yyyy-MM-dd'T'HH:mm:ss.SSSZ`.
    pub created_at: Option<String>,
}

/// Pagination details of a listing response.
#[derive(Clone, Debug, PartialEq, Eq, Default)]
pub struct Paging {
    pub page: Option<i32>,
    pub size: Option<i32>,
    pub total_pages: Option<i32>,
    pub total_results: Option<i32>,
}

/// Response body listing the account's sending domains.
#[derive(Clone, Debug, PartialEq, Eq)]
pub struct GetDomainsResponseBody {
    /// Pagination details of this page.
    pub paging: Option<Paging>,

    /// The domains that belong to the account.
    pub results: Option<Vec<Domain>>,
}

/// DKIM key length. The remote API defines the value as the literal number
/// of bits, so its wire token is the decimal numeral.
#[derive(Clone, Copy, Debug, Eq, PartialEq, Ord, PartialOrd, Hash)]
pub enum DkimKeyLength {
    L1024,
    L2048,
}

impl DkimKeyLength {
    /// The number of bits the variant stands for.
    pub open spec fn spec_bits(self) -> u32 {
        match self {
            DkimKeyLength::L1024 => 1024,
            DkimKeyLength::L2048 => 2048,
        }
    }

    /// The number of bits the variant stands for.
    pub fn bits(&self) -> (r: u32)
        ensures
            r == self.spec_bits(),
    {
        match self {
            DkimKeyLength::L1024 => 1024,
            DkimKeyLength::L2048 => 2048,
        }
    }
}


impl DkimKeyLength {
    /// The fixed wire token of the key length: the remote API defines the
    /// value as the literal number of bits, so the token is its numeral.
    pub open spec fn spec_token(self) -> Seq<char> {
        match self {
            DkimKeyLength::L1024 => "1024"@,
            DkimKeyLength::L2048 => "2048"@,
        }
    }

    /// The token the key length serializes to.
    pub fn token(&self) -> (r: &'static str)
        ensures
            r@ == self.spec_token(),
    {
        match self {
            DkimKeyLength::L1024 => "1024",
            DkimKeyLength::L2048 => "2048",
        }
    }

    /// Decodes a wire token; an unrecognized token is a decoding error, not
    /// a fallback.
    pub fn from_token(s: &str) -> (r: Result<DkimKeyLength, DecodeError>)
        ensures
            s@ == "1024"@ ==> r == Ok::<DkimKeyLength, DecodeError>(DkimKeyLength::L1024),
            s@ == "2048"@ ==> r == Ok::<DkimKeyLength, DecodeError>(DkimKeyLength::L2048),
            !(s@ == "1024"@ || s@ == "2048"@) ==> r is Err,
    {
        proof {
            reveal_strlit("1024");
            reveal_strlit("2048");
            assert("1024"@[0] == '1' && "2048"@[0] == '2');
        }
        if str_eq(s, "1024") {
            Ok(DkimKeyLength::L1024)
        } else if str_eq(s, "2048") {
            Ok(DkimKeyLength::L2048)
        } else {
            Err(DecodeError::new())
        }
    }
}

/// Request body registering a new sending domain.
#[derive(Clone, Debug, PartialEq, Eq)]
pub struct AddDomainRequestBody {
    pub domain_name: String,

    pub dkim_key_length: Option<DkimKeyLength>,
}

impl AddDomainRequestBody {
    pub fn new(domain_name: &str) -> (r: Self)
        ensures
            r.domain_name@ == domain_name@,
            r.dkim_key_length is None,
    {
        AddDomainRequestBody { domain_name: domain_name.to_owned(), dkim_key_length: None }
    }

    /// Every violation the request holds.
    pub open spec fn issues(self) -> Seq<(Seq<char>, Constraint)> {
        crate::validation::violation_when(
            self.domain_name@.len() < 1,
            "domain_name"@,
            Constraint::LengthMin(1),
        )
    }

    /// The domain name must be non-empty.
    pub open spec fn valid(self) -> bool {
        self.domain_name@.len() >= 1
    }

    pub fn validate(&self) -> (r: Result<(), ValidationErrors>)
        ensures
            r.is_ok() <==> self.valid(),
            r matches Err(e) ==> e@ == self.issues(),
    {
        let mut issues: Vec<ValidationIssue> = Vec::new();
        if char_len(&self.domain_name) < 1 {
            issues.push(
                ValidationIssue { field: "domain_name", constraint: Constraint::LengthMin(1) },
            );
        }
        proof {
            assert(issue_views(issues@) =~= self.issues());
        }
        if issues.len() == 0 {
            Ok(())
        } else {
            Err(ValidationErrors { issues })
        }
    }
}

/// Law: the minimal domain registration — a non-empty domain name, no key
/// length chosen — passes validation.
pub proof fn lemma_minimal_add_domain_valid(r: AddDomainRequestBody)
    requires
        r.domain_name@.len() >= 1,
    ensures
        r.valid(),
{
}

pub type AddDomainResponseBody = Domain;

pub type GetDomainResponseBody = Domain;

/// Request body updating a domain's tracking configuration. The `opens`
/// field serializes under the wire name `open`.
#[derive(Clone, Debug, PartialEq, Eq)]
pub struct UpdateTrackingRequestBody {
    pub opens: Option<bool>,

    pub clicks: Option<bool>,

    pub unsubscribe: Option<bool>,
}

impl UpdateTrackingRequestBody {
    pub fn new() -> (r: Self)
        ensures
            r.opens is None,
            r.clicks is None,
            r.unsubscribe is None,
    {
        UpdateTrackingRequestBody { opens: None, clicks: None, unsubscribe: None }
    }

    /// The flags carry no locally checked constraint.
    pub fn validate(&self) -> (r: Result<(), ValidationErrors>)
        ensures
            r.is_ok(),
    {
        Ok(())
    }
}

impl Default for UpdateTrackingRequestBody {
    fn default() -> (r: Self)
        ensures
            r.opens is None,
            r.clicks is None,
            r.unsubscribe is None,
    {
        Self::new()
    }
}

impl UpdateTrackingRequestBody {
    /// The members of the request's wire object. The `opens` field carries
    /// the wire name `open`, as the remote API dictates.
    pub open spec fn wire_fields(self) -> Seq<(Seq<char>, Seq<char>)> {
        opt_bool_field("open"@, self.opens) + opt_bool_field("clicks"@, self.clicks)
            + opt_bool_field("unsubscribe"@, self.unsubscribe)
    }

    /// The request's JSON wire form.
    pub open spec fn wire_json(self) -> Seq<char> {
        render_obj(self.wire_fields())
    }

    /// Renders the request to its JSON wire form.
    pub fn to_json(&self) -> (r: String)
        ensures
            r@ == self.wire_json(),
    {
        let ghost q1 = opt_bool_field("open"@, self.opens);
        let ghost q2 = opt_bool_field("clicks"@, self.clicks);
        let ghost q3 = opt_bool_field("unsubscribe"@, self.unsubscribe);
        let mut fields: Vec<WireField> = Vec::new();
        match self.opens {
            Some(v) => {
                push_field(&mut fields, WireField { name: "open", value: json_bool_string(v) });
            },
            None => {},
        }
        proof {
            assert(field_views(fields@) =~= q1);
        }
        match self.clicks {
            Some(v) => {
                push_field(&mut fields, WireField { name: "clicks", value: json_bool_string(v) });
            },
            None => {},
        }
        proof {
            assert(field_views(fields@) =~= q1 + q2);
        }
        match self.unsubscribe {
            Some(v) => {
                push_field(
                    &mut fields,
                    WireField { name: "unsubscribe", value: json_bool_string(v) },
                );
            },
            None => {},
        }
        proof {
            assert(field_views(fields@) =~= q1 + q2 + q3);
            assert(self.wire_fields() == q1 + q2 + q3);
        }
        render_object(&fields)
    }
}

/// Law: an optional flag left unset contributes no member to the tracking
/// request's wire object.
pub proof fn lemma_unset_fields_omitted_tracking(r: UpdateTrackingRequestBody)
    ensures
        r.opens is None ==> !names_of(r.wire_fields()).contains("open"@),
        r.clicks is None ==> !names_of(r.wire_fields()).contains("clicks"@),
        r.unsubscribe is None ==> !names_of(r.wire_fields()).contains("unsubscribe"@),
{
    reveal_strlit("open");
    reveal_strlit("clicks");
    reveal_strlit("unsubscribe");
    assert("open"@.len() == 4 && "clicks"@.len() == 6 && "unsubscribe"@.len() == 11);
    if r.opens is None {
        assert(!names_of(r.wire_fields()).contains("open"@));
    }
    if r.clicks is None {
        assert(!names_of(r.wire_fields()).contains("clicks"@));
    }
    if r.unsubscribe is None {
        assert(!names_of(r.wire_fields()).contains("unsubscribe"@));
    }
}

pub type UpdateTrackingResponseBody = Domain;

} // verus!
