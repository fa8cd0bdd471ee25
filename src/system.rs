use vstd::prelude::*;

use crate::privacy::PrivacyLevel;

verus! {

/// The internal numeric identity of a system.
pub type SystemId = i32;

/// A date and time without a time zone, as seconds and nanoseconds since
/// 1970-01-01T00:00:00.
#[derive(Clone, Copy, Debug, PartialEq, Eq, Structural, Hash)]
pub struct NaiveTimestamp {
    pub seconds: i64,
    pub nanos: u32,
}

/// A value in the JSON form of an entity.
#[derive(Clone, Debug)]
pub enum JsonValue {
    Null,
    Text(String),
    Uuid(u128),
    Timestamp(NaiveTimestamp),
}

/// The view of a JSON value.
pub enum JsonView {
    Null,
    Text(Seq<char>),
    Uuid(u128),
    Timestamp(NaiveTimestamp),
}

impl View for JsonValue {
    type V = JsonView;

    open spec fn view(&self) -> JsonView {
        match self {
            JsonValue::Null => JsonView::Null,
            JsonValue::Text(s) => JsonView::Text(s@),
            JsonValue::Uuid(u) => JsonView::Uuid(*u),
            JsonValue::Timestamp(t) => JsonView::Timestamp(*t),
        }
    }
}

/// A system: the user-owned entity that the API serves.
#[derive(Clone, Debug)]
pub struct System {
    pub id: SystemId,
    pub hid: String,
    pub uuid: u128,
    pub name: Option<String>,
    pub description: Option<String>,
    pub tag: Option<String>,
    pub pronouns: Option<String>,
    pub avatar_url: Option<String>,
    pub banner_image: Option<String>,
    pub color: Option<String>,
    pub token: Option<String>,
    pub webhook_url: Option<String>,
    pub webhook_token: Option<String>,
    pub created: NaiveTimestamp,
    pub name_privacy: PrivacyLevel,
    pub avatar_privacy: PrivacyLevel,
    pub description_privacy: PrivacyLevel,
    pub banner_privacy: PrivacyLevel,
    pub member_list_privacy: PrivacyLevel,
    pub front_privacy: PrivacyLevel,
    pub front_history_privacy: PrivacyLevel,
    pub group_list_privacy: PrivacyLevel,
    pub pronoun_privacy: PrivacyLevel,
}

/// Whether a field behind `guard` is shown to a caller with `exposure`.
pub open spec fn shown(gate: PrivacyLevel, exposure: PrivacyLevel) -> bool {
    exposure == PrivacyLevel::Private || gate == PrivacyLevel::Public
}

/// The JSON value of an optional text.
pub open spec fn opt_text(o: Option<String>) -> JsonView {
    match o {
        Some(s) => JsonView::Text(s@),
        None => JsonView::Null,
    }
}

/// One entry, kept only where its guard lets `exposure` see it.
pub open spec fn gated(entry: (Seq<char>, JsonView), gate: PrivacyLevel, exposure: PrivacyLevel) -> Seq<
    (Seq<char>, JsonView),
> {
    if shown(gate, exposure) {
        seq![entry]
    } else {
        Seq::empty()
    }
}

/// The JSON entries of `s` seen by a caller with `exposure`. Secrets have no
/// key and never appear; gated fields appear only where their guard allows.
pub open spec fn system_json(s: System, exposure: PrivacyLevel) -> Seq<(Seq<char>, JsonView)> {
    seq![("id"@, JsonView::Text(s.hid@)), ("uuid"@, JsonView::Uuid(s.uuid))] + gated(
        ("name"@, opt_text(s.name)),
        s.name_privacy,
        exposure,
    ) + gated(("description"@, opt_text(s.description)), s.description_privacy, exposure) + seq![
        ("tag"@, opt_text(s.tag)),
    ] + gated(("pronouns"@, opt_text(s.pronouns)), s.pronoun_privacy, exposure) + gated(
        ("avatar_url"@, opt_text(s.avatar_url)),
        s.avatar_privacy,
        exposure,
    ) + gated(("banner_image"@, opt_text(s.banner_image)), s.banner_privacy, exposure) + seq![
        ("color"@, opt_text(s.color)),
        ("webhook_url"@, opt_text(s.webhook_url)),
        ("created"@, JsonView::Timestamp(s.created)),
    ]
}

/// The view of a list of JSON entries.
pub open spec fn json_seq(v: Seq<(String, JsonValue)>) -> Seq<(Seq<char>, JsonView)> {
    v.map_values(|e: (String, JsonValue)| (e.0@, e.1@))
}

fn text_value(o: &Option<String>) -> (r: JsonValue)
    ensures
        r@ == opt_text(*o),
{
    match o {
        Some(s) => JsonValue::Text(s.clone()),
        None => JsonValue::Null,
    }
}

fn push_entry(out: &mut Vec<(String, JsonValue)>, key: &str, value: JsonValue)
    ensures
        json_seq(final(out)@) == json_seq(old(out)@).push((key@, value@)),
{
    let ghost before = out@;
    out.push((key.to_string(), value));
    assert(json_seq(out@) =~= json_seq(before).push((key@, value@)));
}

fn push_gated(
    out: &mut Vec<(String, JsonValue)>,
    key: &str,
    value: JsonValue,
    gate: PrivacyLevel,
    exposure: PrivacyLevel,
)
    ensures
        json_seq(final(out)@) == json_seq(old(out)@) + gated((key@, value@), gate, exposure),
{
    if exposure == PrivacyLevel::Private || gate == PrivacyLevel::Public {
        push_entry(out, key, value);
    }
    assert(json_seq(out@) =~= json_seq(old(out)@) + gated((key@, value@), gate, exposure));
}

impl System {
    /// The JSON entries of this system as a caller with `exposure` sees them.
    pub fn to_json(&self, exposure: PrivacyLevel) -> (r: Vec<(String, JsonValue)>)
        ensures
            json_seq(r@) == system_json(*self, exposure),
    {
        let mut out: Vec<(String, JsonValue)> = Vec::new();
        push_entry(&mut out, "id", JsonValue::Text(self.hid.clone()));
        push_entry(&mut out, "uuid", JsonValue::Uuid(self.uuid));
        push_gated(&mut out, "name", text_value(&self.name), self.name_privacy, exposure);
        push_gated(
            &mut out,
            "description",
            text_value(&self.description),
            self.description_privacy,
            exposure,
        );
        push_entry(&mut out, "tag", text_value(&self.tag));
        push_gated(&mut out, "pronouns", text_value(&self.pronouns), self.pronoun_privacy, exposure);
        push_gated(&mut out, "avatar_url", text_value(&self.avatar_url), self.avatar_privacy, exposure);
        push_gated(
            &mut out,
            "banner_image",
            text_value(&self.banner_image),
            self.banner_privacy,
            exposure,
        );
        push_entry(&mut out, "color", text_value(&self.color));
        push_entry(&mut out, "webhook_url", text_value(&self.webhook_url));
        push_entry(&mut out, "created", JsonValue::Timestamp(self.created));
        assert(json_seq(out@) =~= system_json(*self, exposure));
        out
    }
}

} // verus!
