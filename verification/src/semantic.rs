//! Marked stretches of the timeline and the requests for media that they carry.
use crate::copying::{optional, views, Duplicate};
use crate::double::{length_in, nanos_in, real_seconds, seconds_of_length, Real};
use crate::errors::GlobalStateError;
use crate::json::{
    documents, lemma_documents, lemma_members, members, JsonMember, JsonNumber, JsonValue, JsonView,
    MemberView,
};
use crate::json_edit::{
    get_member, get_number, get_text, lookup, merge_json_value, merged, number_at, object_at, put,
    put_member, put_text, remove_member, take_object, text_at, without,
};
use crate::json_text::{complaint_about, document_in, read_document};
use crate::json_writing::{text_in_lines, write_in_lines, written};
use crate::lists::{lemma_filter_views, retain_by};
use crate::media_pool::{short_seconds, short_seconds_text};
use crate::order::{lemma_ordered_views, ordered, sort_by_time, Timed};
use crate::placing::{next_number, take_id};
use crate::removal::{find_semantic, semantic_place};
use crate::rounding::{find_number_near, number_near};
use crate::state::{GlobalState, SelectionView, StateView};
use crate::text::{
    decimal, decimal_text, joined, joined3, lowered, owned, text_is, to_ascii_lowercase, trim,
    trimmed,
};
use crate::time::{greatest, least, Duration, MAX_NANOS};
use crate::tracks::{SemanticClip, SemanticClipView, Timeline, TimelineView};
use vstd::arithmetic::power2::pow2;
use vstd::prelude::*;

verus! {

broadcast use crate::copying::group_views;

/// The length in seconds, as a JSON number. One past the longest counts as the longest.
pub open spec fn json_seconds(nanos: int) -> JsonNumber {
    JsonNumber::Double(real_seconds(nanos).bits)
}

/// The length in seconds, as a JSON number.
pub fn semantic_duration_sec(d: Duration) -> (n: JsonNumber)
    ensures
        n == json_seconds(d@),
{
    JsonNumber::Double(seconds_of_length(d).bits)
}

// ---------------------------------------------------------------------------
// The request
// ---------------------------------------------------------------------------

/// A member of an object.
pub open spec fn member(key: Seq<char>, value: JsonView) -> MemberView {
    MemberView { key, value }
}

pub(crate) fn push_member(entries: &mut Vec<JsonMember>, key: &str, value: JsonValue)
    ensures
        members(final(entries)@) == members(old(entries)@).push(member(key@, value@)),
{
    let ghost before = entries@;
    let m = JsonMember { key: owned(key), value };
    let ghost mm = m@;
    entries.push(m);
    proof {
        lemma_members(before);
        lemma_members(entries@);
        assert forall|j: int| 0 <= j < entries@.len() implies #[trigger] members(entries@)[j]
            == members(before).push(mm)[j] by {
            assert(members(entries@)[j] == entries@[j]@);
            if j < before.len() {
                assert(members(before)[j] == before[j]@);
            }
        }
        assert(members(entries@) =~= members(before).push(mm));
    }
}

fn push_text_member(entries: &mut Vec<JsonMember>, key: &str, text: &str)
    ensures
        members(final(entries)@) == members(old(entries)@).push(
            member(key@, JsonView::Text(text@)),
        ),
{
    push_member(entries, key, JsonValue::Text(owned(text)));
}

/// The text without white space around it, or another where nothing is left.
pub open spec fn trimmed_or(text: Seq<char>, usual: Seq<char>) -> Seq<char> {
    if trimmed(text).len() == 0 {
        usual
    } else {
        trimmed(text)
    }
}

fn trim_or(text: &str, usual: &str) -> (t: String)
    ensures
        t@ == trimmed_or(text@, usual@),
{
    let t = trim(text);
    if t.as_str().unicode_len() == 0 {
        owned(usual)
    } else {
        t
    }
}

/// The name of a stretch in its request.
pub open spec fn shot_id(id: u64) -> Seq<char> {
    "semantic-"@ + decimal(id as int)
}

/// What a picture should look like, as it is asked for at first.
pub open spec fn usual_visual() -> JsonView {
    JsonView::Object(
        seq![
            member("entities"@, JsonView::Array(seq![])),
            member("visual_type"@, JsonView::Text("live_action"@)),
            member("camera"@, JsonView::Text("medium shot, slow push-in"@)),
            member("style"@, JsonView::Text("cinematic, neutral grade"@)),
            member("lighting"@, JsonView::Text("soft natural light"@)),
            member(
                "negative_constraints"@,
                JsonView::Array(
                    seq![
                        JsonView::Text("no watermark"@),
                        JsonView::Text("no logo"@),
                        JsonView::Text("no gibberish text"@),
                    ],
                ),
            ),
        ],
    )
}

/// The request of a stretch at first.
#[verifier::opaque]
pub open spec fn usual_schema(
    id: u64,
    duration: int,
    semantic_type: Seq<char>,
    label: Seq<char>,
) -> Seq<MemberView> {
    let prompt = JsonView::Text(trimmed_or(label, "semantic"@));
    seq![
        member("shot_id"@, JsonView::Text(shot_id(id))),
        member("asset_mode"@, JsonView::Text("video"@)),
        member("provider"@, JsonView::Text("veo_3_1"@)),
        member("semantic_goal"@, JsonView::Text(trimmed_or(semantic_type, "content_support"@))),
        member("script_anchor"@, JsonView::Text(""@)),
        member("duration_sec"@, JsonView::Number(json_seconds(duration))),
        member("visual"@, usual_visual()),
        member(
            "prompts"@,
            JsonView::Object(seq![member("image_prompt"@, prompt), member("video_prompt"@, prompt)]),
        ),
        member(
            "image_options"@,
            JsonView::Object(
                seq![
                    member("width"@, JsonView::Number(JsonNumber::Unsigned(1280))),
                    member("height"@, JsonView::Number(JsonNumber::Unsigned(720))),
                ],
            ),
        ),
    ]
}

fn make_usual_visual() -> (v: JsonValue)
    ensures
        v@ == usual_visual(),
{
    let mut limits: Vec<JsonValue> = Vec::new();
    limits.push(JsonValue::Text(owned("no watermark")));
    limits.push(JsonValue::Text(owned("no logo")));
    limits.push(JsonValue::Text(owned("no gibberish text")));
    let none: Vec<JsonValue> = Vec::new();
    proof {
        lemma_documents(limits@);
        assert(documents(limits@)[0] == limits@[0]@);
        assert(documents(limits@)[1] == limits@[1]@);
        assert(documents(limits@)[2] == limits@[2]@);
        assert(documents(limits@) =~= seq![
            JsonView::Text("no watermark"@),
            JsonView::Text("no logo"@),
            JsonView::Text("no gibberish text"@),
        ]);
        assert(documents(none@) =~= seq![]);
    }
    let mut o: Vec<JsonMember> = Vec::new();
    assert(members(o@) =~= seq![]);
    let entities = JsonValue::Array(none);
    assert(entities@ == JsonView::Array(seq![]));
    let constraints = JsonValue::Array(limits);
    assert(constraints@ == JsonView::Array(
        seq![
            JsonView::Text("no watermark"@),
            JsonView::Text("no logo"@),
            JsonView::Text("no gibberish text"@),
        ],
    ));
    push_member(&mut o, "entities", entities);
    push_text_member(&mut o, "visual_type", "live_action");
    push_text_member(&mut o, "camera", "medium shot, slow push-in");
    push_text_member(&mut o, "style", "cinematic, neutral grade");
    push_text_member(&mut o, "lighting", "soft natural light");
    push_member(&mut o, "negative_constraints", constraints);
    assert(members(o@) =~= usual_visual().members());
    let v = JsonValue::Object(o);
    assert(v@ == JsonView::Object(members(o@)));
    v
}

/// The request of a stretch at first.
pub fn default_semantic_prompt_schema(
    id: u64,
    duration: Duration,
    semantic_type: &str,
    label: &str,
) -> (schema: JsonValue)
    ensures
        schema@ == JsonView::Object(usual_schema(id, duration@, semantic_type@, label@)),
{
    reveal(usual_schema);
    let prompt = trim_or(label, "semantic");
    let mut prompts: Vec<JsonMember> = Vec::new();
    assert(members(prompts@) =~= seq![]);
    push_text_member(&mut prompts, "image_prompt", prompt.as_str());
    push_text_member(&mut prompts, "video_prompt", prompt.as_str());
    let mut size: Vec<JsonMember> = Vec::new();
    assert(members(size@) =~= seq![]);
    push_member(&mut size, "width", JsonValue::Number(JsonNumber::Unsigned(1280)));
    push_member(&mut size, "height", JsonValue::Number(JsonNumber::Unsigned(720)));
    proof {
        let p = JsonView::Text(trimmed_or(label@, "semantic"@));
        assert(members(prompts@) =~= seq![
            member("image_prompt"@, p),
            member("video_prompt"@, p),
        ]);
        assert(members(size@) =~= seq![
            member("width"@, JsonView::Number(JsonNumber::Unsigned(1280))),
            member("height"@, JsonView::Number(JsonNumber::Unsigned(720))),
        ]);
    }
    let prompts_value = JsonValue::Object(prompts);
    assert(prompts_value@ == JsonView::Object(members(prompts@)));
    let size_value = JsonValue::Object(size);
    assert(size_value@ == JsonView::Object(members(size@)));
    let seconds = JsonValue::Number(semantic_duration_sec(duration));
    assert(seconds@ == JsonView::Number(json_seconds(duration@)));
    let mut o: Vec<JsonMember> = Vec::new();
    assert(members(o@) =~= seq![]);
    push_text_member(&mut o, "shot_id", joined("semantic-", decimal_text(id).as_str()).as_str());
    push_text_member(&mut o, "asset_mode", "video");
    push_text_member(&mut o, "provider", "veo_3_1");
    push_text_member(&mut o, "semantic_goal", trim_or(semantic_type, "content_support").as_str());
    push_text_member(&mut o, "script_anchor", "");
    push_member(&mut o, "duration_sec", seconds);
    push_member(&mut o, "visual", make_usual_visual());
    push_member(&mut o, "prompts", prompts_value);
    push_member(&mut o, "image_options", size_value);
    assert(members(o@) =~= usual_schema(id, duration@, semantic_type@, label@));
    let v = JsonValue::Object(o);
    assert(v@ == JsonView::Object(members(o@)));
    v
}

/// The object with a usual text under a key that has no text but white space.
pub open spec fn with_usual_text(o: Seq<MemberView>, key: Seq<char>, usual: Seq<char>) -> Seq<
    MemberView,
> {
    match text_at(o, key) {
        Some(t) => if trimmed(t).len() == 0 {
            put(o, key, JsonView::Text(usual))
        } else {
            o
        },
        None => put(o, key, JsonView::Text(usual)),
    }
}

fn put_usual_text(o: &mut Vec<JsonMember>, key: &str, usual: &str)
    ensures
        members(final(o)@) == with_usual_text(members(old(o)@), key@, usual@),
{
    let missing = match get_text(o, key) {
        Some(t) => trim(t.as_str()).as_str().unicode_len() == 0,
        None => true,
    };
    if missing {
        put_text(o, key, usual);
    }
}

/// The object without what earlier requests held.
pub open spec fn without_old_fields(o: Seq<MemberView>) -> Seq<MemberView> {
    without(
        without(
            without(
                without(
                    without(
                        without(without(o, "schema_version"@), "timecode_start_ms"@),
                        "timecode_end_ms"@,
                    ),
                    "timing"@,
                ),
                "provider_prompts"@,
            ),
            "provider_limits"@,
        ),
        "meta"@,
    )
}

/// The prompts, with the label where one is missing.
pub open spec fn full_prompts(prompts: Seq<MemberView>, label: Seq<char>) -> Seq<MemberView> {
    without(
        with_usual_text(
            with_usual_text(prompts, "image_prompt"@, label),
            "video_prompt"@,
            label,
        ),
        "fallback_search_query"@,
    )
}

/// The text under a key in lower case and without white space around it, or a usual one.
pub open spec fn plain_text_at(o: Seq<MemberView>, key: Seq<char>, usual: Seq<char>) -> Seq<char> {
    match text_at(o, key) {
        Some(t) => lowered(trimmed(t)),
        None => usual,
    }
}

/// Whether a provider makes videos of one size only.
pub open spec fn needs_fixed_size(provider: Seq<char>, mode: Seq<char>) -> bool {
    mode == "video"@ && (provider == "veo_3_1"@ || provider == "google/veo_3_1"@ || provider
        == "google/veo-3.1-generate-preview"@ || provider == "openai/sora-2"@ || provider
        == "sora-2"@ || provider == "sora_2"@ || provider == "openai/sora-2-pro"@ || provider
        == "sora-2-pro"@ || provider == "sora_2_pro"@)
}

/// The side of a picture, if the number can be one.
pub open spec fn side(n: Option<u64>) -> Option<u32> {
    match n {
        Some(n) => if 0 < n && n <= u32::MAX {
            Some(n as u32)
        } else {
            None
        },
        None => None,
    }
}

/// The object with a usual side of the picture, where it has none.
pub open spec fn with_usual_side(o: Seq<MemberView>, key: Seq<char>, usual: u64) -> Seq<
    MemberView,
> {
    if side(number_at(o, key)) is None {
        put(o, key, JsonView::Number(JsonNumber::Unsigned(usual)))
    } else {
        o
    }
}

/// The request with the size that its provider needs.
pub open spec fn with_size(o: Seq<MemberView>) -> Seq<MemberView> {
    if needs_fixed_size(
        plain_text_at(o, "provider"@, "veo_3_1"@),
        plain_text_at(o, "asset_mode"@, "video"@),
    ) {
        put(
            o,
            "image_options"@,
            JsonView::Object(
                with_usual_side(
                    with_usual_side(object_at(o, "image_options"@), "width"@, 1280),
                    "height"@,
                    720,
                ),
            ),
        )
    } else {
        o
    }
}

/// The request with what the stretch itself says.
pub open spec fn with_own_fields(o: Seq<MemberView>, c: SemanticClipView) -> Seq<MemberView> {
    put(
        put(o, "shot_id"@, JsonView::Text(shot_id(c.id))),
        "duration_sec"@,
        JsonView::Number(json_seconds(c.duration)),
    )
}

/// The request with a goal, which is the kind of the stretch.
pub open spec fn with_goal(o: Seq<MemberView>, c: SemanticClipView) -> Seq<MemberView> {
    put(
        o,
        "semantic_goal"@,
        JsonView::Text(
            if trimmed(c.semantic_type).len() == 0 {
                "content_support"@
            } else {
                c.semantic_type
            },
        ),
    )
}

/// The request with its prompts.
pub open spec fn with_prompts(o: Seq<MemberView>, c: SemanticClipView) -> Seq<MemberView> {
    put(
        o,
        "prompts"@,
        JsonView::Object(full_prompts(object_at(o, "prompts"@), c.label)),
    )
}

/// The request, brought up to date.
#[verifier::opaque]
pub open spec fn normalized(o: Seq<MemberView>, c: SemanticClipView) -> Seq<MemberView> {
    with_size(
        with_prompts(
            with_goal(
                with_usual_text(
                    with_usual_text(
                        without_old_fields(with_own_fields(o, c)),
                        "asset_mode"@,
                        "video"@,
                    ),
                    "provider"@,
                    "veo_3_1"@,
                ),
                c,
            ),
            c,
        ),
    )
}

impl SemanticClipView {
    /// The request at first.
    pub open spec fn first_schema(self) -> JsonView {
        JsonView::Object(usual_schema(self.id, self.duration, self.semantic_type, self.label))
    }

    /// The stretch with its request brought up to date: laid over the usual one, with what the
    /// stretch itself says. What is no object is replaced by the usual one.
    #[verifier::opaque]
    pub open spec fn synced(self) -> SemanticClipView {
        SemanticClipView {
            prompt_schema: match merged(self.first_schema(), self.prompt_schema) {
                JsonView::Object(o) => JsonView::Object(normalized(o, self)),
                _ => self.first_schema(),
            },
            ..self
        }
    }
}

fn fits_side(n: Option<u64>) -> (s: Option<u32>)
    ensures
        s == side(n),
{
    match n {
        Some(n) => if 0 < n && n <= 0xffff_ffff {
            Some(n as u32)
        } else {
            None
        },
        None => None,
    }
}

/// Whether a provider makes videos of one size only.
pub fn semantic_provider_needs_video_1280x720(provider: &str, mode: &str) -> (yes: bool)
    ensures
        yes == needs_fixed_size(provider@, mode@),
{
    text_is(mode, "video") && (text_is(provider, "veo_3_1") || text_is(provider, "google/veo_3_1")
        || text_is(provider, "google/veo-3.1-generate-preview") || text_is(
        provider,
        "openai/sora-2",
    ) || text_is(provider, "sora-2") || text_is(provider, "sora_2") || text_is(
        provider,
        "openai/sora-2-pro",
    ) || text_is(provider, "sora-2-pro") || text_is(provider, "sora_2_pro"))
}

fn find_plain_text(o: &Vec<JsonMember>, key: &str, usual: &str) -> (t: String)
    ensures
        t@ == plain_text_at(members(o@), key@, usual@),
{
    match get_text(o, key) {
        Some(t) => to_ascii_lowercase(trim(t.as_str()).as_str()),
        None => owned(usual),
    }
}

fn put_usual_side(o: &mut Vec<JsonMember>, key: &str, usual: u64)
    ensures
        members(final(o)@) == with_usual_side(members(old(o)@), key@, usual),
{
    if fits_side(get_number(o, key)).is_none() {
        put_member(o, key, JsonValue::Number(JsonNumber::Unsigned(usual)));
    }
}

fn put_size(o: &mut Vec<JsonMember>)
    ensures
        members(final(o)@) == with_size(members(old(o)@)),
{
    let mode = find_plain_text(o, "asset_mode", "video");
    let provider = find_plain_text(o, "provider", "veo_3_1");
    if semantic_provider_needs_video_1280x720(provider.as_str(), mode.as_str()) {
        let mut size = take_object(o, "image_options");
        put_usual_side(&mut size, "width", 1280);
        put_usual_side(&mut size, "height", 720);
        put_member(o, "image_options", JsonValue::Object(size));
    }
}

fn put_prompts(o: &mut Vec<JsonMember>, label: &str, Ghost(c): Ghost<SemanticClipView>)
    requires
        c.label == label@,
    ensures
        members(final(o)@) == with_prompts(members(old(o)@), c),
{
    let mut prompts = take_object(o, "prompts");
    put_usual_text(&mut prompts, "image_prompt", label);
    put_usual_text(&mut prompts, "video_prompt", label);
    remove_member(&mut prompts, "fallback_search_query");
    put_member(o, "prompts", JsonValue::Object(prompts));
}

fn normalize(o: &mut Vec<JsonMember>, c: &SemanticClip)
    ensures
        members(final(o)@) == normalized(members(old(o)@), c@),
{
    reveal(normalized);
    put_text(o, "shot_id", joined("semantic-", decimal_text(c.id).as_str()).as_str());
    put_member(o, "duration_sec", JsonValue::Number(semantic_duration_sec(c.duration)));
    remove_member(o, "schema_version");
    remove_member(o, "timecode_start_ms");
    remove_member(o, "timecode_end_ms");
    remove_member(o, "timing");
    remove_member(o, "provider_prompts");
    remove_member(o, "provider_limits");
    remove_member(o, "meta");
    put_usual_text(o, "asset_mode", "video");
    put_usual_text(o, "provider", "veo_3_1");
    if trim(c.semantic_type.as_str()).as_str().unicode_len() == 0 {
        put_text(o, "semantic_goal", "content_support");
    } else {
        put_text(o, "semantic_goal", c.semantic_type.as_str());
    }
    put_prompts(o, c.label.as_str(), Ghost(c@));
    put_size(o);
}

/// Brings the request of a stretch up to date.
pub fn sync_semantic_prompt_schema_fields(c: &mut SemanticClip)
    ensures
        final(c)@ == old(c)@.synced(),
{
    reveal(SemanticClipView::synced);
    let usual = default_semantic_prompt_schema(
        c.id,
        c.duration,
        c.semantic_type.as_str(),
        c.label.as_str(),
    );
    match merge_json_value(usual, &c.prompt_schema) {
        JsonValue::Object(o) => {
            let mut o = o;
            normalize(&mut o, c);
            c.prompt_schema = JsonValue::Object(o);
        },
        _ => {
            c.prompt_schema =
            default_semantic_prompt_schema(
                c.id,
                c.duration,
                c.semantic_type.as_str(),
                c.label.as_str(),
            );
        },
    }
}

// ---------------------------------------------------------------------------
// What a request says
// ---------------------------------------------------------------------------

impl JsonView {
    /// The members of an object; none of anything else.
    pub open spec fn members(self) -> Seq<MemberView> {
        match self {
            JsonView::Object(o) => o,
            _ => seq![],
        }
    }
}

/// The text under a key, in lower case and without white space around it; a usual one where
/// nothing is left.
pub open spec fn choice_at(o: Seq<MemberView>, key: Seq<char>, usual: Seq<char>) -> Seq<char> {
    match text_at(o, key) {
        Some(t) => if lowered(trimmed(t)).len() > 0 {
            lowered(trimmed(t))
        } else {
            usual
        },
        None => usual,
    }
}

fn find_choice(schema: &JsonValue, key: &str, usual: &str) -> (t: String)
    ensures
        t@ == choice_at(schema@.members(), key@, usual@),
{
    match schema {
        JsonValue::Object(o) => {
            if let Some(t) = get_text(o, key) {
                let plain = to_ascii_lowercase(trim(t.as_str()).as_str());
                if plain.as_str().unicode_len() > 0 {
                    return plain;
                }
            }
            owned(usual)
        },
        _ => {
            proof {
                lemma_nothing_found(key@);
            }
            owned(usual)
        },
    }
}

proof fn lemma_nothing_found(key: Seq<char>)
    ensures
        lookup(seq![], key) is None,
{
}

impl SemanticClipView {
    /// The provider that the request asks for.
    pub open spec fn provider(self) -> Seq<char> {
        choice_at(self.prompt_schema.members(), "provider"@, "veo_3_1"@)
    }

    /// The kind of media that the request asks for.
    pub open spec fn asset_mode(self) -> Seq<char> {
        choice_at(self.prompt_schema.members(), "asset_mode"@, "video"@)
    }

    /// The prompt for the kind of media that the request asks for, if it says anything.
    pub open spec fn prompt(self) -> Option<Seq<char>> {
        match lookup(self.prompt_schema.members(), "prompts"@) {
            Some(JsonView::Object(p)) => match text_at(p, prompt_key(self.asset_mode())) {
                Some(t) => if trimmed(t).len() > 0 {
                    Some(trimmed(t))
                } else {
                    None
                },
                None => None,
            },
            _ => None,
        }
    }

    /// A side of the picture that the request asks for.
    pub open spec fn image_side(self, key: Seq<char>) -> Option<u32> {
        match lookup(self.prompt_schema.members(), "image_options"@) {
            Some(JsonView::Object(o)) => side(number_at(o, key)),
            _ => None,
        }
    }
}

/// The key of the prompt for a kind of media.
pub open spec fn prompt_key(mode: Seq<char>) -> Seq<char> {
    if mode == "image"@ {
        "image_prompt"@
    } else {
        "video_prompt"@
    }
}

fn semantic_prompt_key_for_mode(mode: &str) -> (key: &'static str)
    ensures
        key@ == prompt_key(mode@),
{
    if text_is(mode, "image") {
        "image_prompt"
    } else {
        "video_prompt"
    }
}

/// The kind of media that a word means.
pub open spec fn mode_named(raw: Seq<char>) -> Seq<char> {
    if lowered(trimmed(raw)) == lowered("image"@) {
        "image"@
    } else {
        "video"@
    }
}

/// The kind of media that a word means.
pub fn normalize_semantic_asset_mode(raw: &str) -> (mode: &'static str)
    ensures
        mode@ == mode_named(raw@),
{
    if text_is(
        to_ascii_lowercase(trim(raw).as_str()).as_str(),
        to_ascii_lowercase("image").as_str(),
    ) {
        "image"
    } else {
        "video"
    }
}

impl SemanticClip {
    fn find_provider(&self) -> (t: String)
        ensures
            t@ == self@.provider(),
    {
        find_choice(&self.prompt_schema, "provider", "veo_3_1")
    }

    fn find_asset_mode(&self) -> (t: String)
        ensures
            t@ == self@.asset_mode(),
    {
        find_choice(&self.prompt_schema, "asset_mode", "video")
    }

    fn find_prompt(&self) -> (t: Option<String>)
        ensures
            optional(t) == self@.prompt(),
    {
        let mode = self.find_asset_mode();
        let key = semantic_prompt_key_for_mode(mode.as_str());
        match &self.prompt_schema {
            JsonValue::Object(o) => match get_member(o, "prompts") {
                Some(JsonValue::Object(p)) => match get_text(p, key) {
                    Some(t) => {
                        let plain = trim(t.as_str());
                        if plain.as_str().unicode_len() > 0 {
                            Some(plain)
                        } else {
                            None
                        }
                    },
                    None => None,
                },
                _ => None,
            },
            _ => {
                proof {
                    lemma_nothing_found("prompts"@);
                }
                None
            },
        }
    }

    fn find_image_side(&self, key: &str) -> (s: Option<u32>)
        ensures
            s == self@.image_side(key@),
    {
        match &self.prompt_schema {
            JsonValue::Object(o) => match get_member(o, "image_options") {
                Some(JsonValue::Object(p)) => fits_side(get_number(p, key)),
                _ => None,
            },
            _ => {
                proof {
                    lemma_nothing_found("image_options"@);
                }
                None
            },
        }
    }
}

/// What is wrong with a request, and what is not as it should be.
#[derive(Debug)]
pub struct SemanticSchemaValidation {
    pub errors: Vec<String>,
    pub warnings: Vec<String>,
}

impl SemanticSchemaValidation {
    /// Whether nothing is wrong.
    pub fn is_ok(&self) -> (yes: bool)
        ensures
            yes == (self.errors@.len() == 0),
    {
        self.errors.len() == 0
    }
}

/// What is told of a length that is not that of the stretch.
pub open spec fn out_of_sync(said: Seq<char>, wanted: Seq<char>) -> Seq<char> {
    "duration_sec ("@ + said + ") was out of sync; expected "@ + wanted + "s."@
}

/// The number under a key, if there is one.
pub open spec fn any_number_at(o: Seq<MemberView>, key: Seq<char>) -> Option<JsonNumber> {
    match lookup(o, key) {
        Some(JsonView::Number(n)) => Some(n),
        _ => None,
    }
}

fn get_any_number(o: &Vec<JsonMember>, key: &str) -> (n: Option<JsonNumber>)
    ensures
        n == any_number_at(members(o@), key@),
{
    match get_member(o, key) {
        Some(JsonValue::Number(n)) => Some(*n),
        _ => None,
    }
}

/// What a check of a stretch's request says, with `mismatch` telling the lengths apart.
pub open spec fn is_check_of<F: Fn(JsonNumber, Duration) -> Option<(String, String)>>(
    c: SemanticClipView,
    mismatch: F,
    errors: Seq<Seq<char>>,
    warnings: Seq<Seq<char>>,
) -> bool {
    if c.prompt_schema is Object {
        errors == Seq::<Seq<char>>::empty() && match any_number_at(
            c.prompt_schema.members(),
            "duration_sec"@,
        ) {
            None => warnings == Seq::<Seq<char>>::empty(),
            Some(n) => exists|said: Option<(String, String)>| #[trigger]
                call_ensures(mismatch, (n, Duration { nanos: c.duration as u128 }), said)
                    && warnings == match said {
                    Some((a, b)) => seq![out_of_sync(a@, b@)],
                    None => Seq::empty(),
                },
        }
    } else {
        errors == seq!["Semantic prompt schema must be a JSON object."@] && warnings == Seq::<
            Seq<char>,
        >::empty()
    }
}

/// Checks the request of a stretch. `mismatch` gives the length that it says and that of the
/// stretch in words, if they are not the same.
pub fn validate_semantic_prompt_schema<F: Fn(JsonNumber, Duration) -> Option<(String, String)>>(
    c: &SemanticClip,
    mismatch: F,
) -> (v: SemanticSchemaValidation)
    requires
        forall|n: JsonNumber, d: Duration| #[trigger] call_requires(mismatch, (n, d)),
    ensures
        is_check_of(c@, mismatch, views(v.errors@), views(v.warnings@)),
{
    let mut errors: Vec<String> = Vec::new();
    let mut warnings: Vec<String> = Vec::new();
    assert(views(errors@) =~= Seq::<Seq<char>>::empty());
    assert(views(warnings@) =~= Seq::<Seq<char>>::empty());
    assert(c.duration == Duration { nanos: c@.duration as u128 });
    match &c.prompt_schema {
        JsonValue::Object(o) => {
            if let Some(n) = get_any_number(o, "duration_sec") {
                if let Some((a, b)) = mismatch(n, c.duration) {
                    let front = joined3(
                        "duration_sec (",
                        a.as_str(),
                        ") was out of sync; expected ",
                    );
                    let text = joined3(front.as_str(), b.as_str(), "s.");
                    warnings.push(text);
                    assert(views(warnings@) =~= seq![out_of_sync(a@, b@)]);
                }
            }
        },
        _ => {
            errors.push(owned("Semantic prompt schema must be a JSON object."));
            assert(views(errors@) =~= seq!["Semantic prompt schema must be a JSON object."@]);
        },
    }
    SemanticSchemaValidation { errors, warnings }
}

// ---------------------------------------------------------------------------
// Changes of the request
// ---------------------------------------------------------------------------

/// A change of a stretch.
#[derive(Debug)]
pub enum SemanticEdit {
    AssetMode(String),
    Model(String),
    Prompt(String),
    ImageSize { width: Option<u32>, height: Option<u32> },
    Label(String),
    Kind(String),
    Start(Duration),
    Length(Duration),
    Sync,
}

/// A change of a stretch.
pub ghost enum SemanticEditView {
    AssetMode(Seq<char>),
    Model(Seq<char>),
    Prompt(Seq<char>),
    ImageSize { width: Option<u32>, height: Option<u32> },
    Label(Seq<char>),
    Kind(Seq<char>),
    Start(int),
    Length(int),
    Sync,
}

impl View for SemanticEdit {
    type V = SemanticEditView;

    open spec fn view(&self) -> SemanticEditView {
        match *self {
            SemanticEdit::AssetMode(t) => SemanticEditView::AssetMode(t@),
            SemanticEdit::Model(t) => SemanticEditView::Model(t@),
            SemanticEdit::Prompt(t) => SemanticEditView::Prompt(t@),
            SemanticEdit::ImageSize { width, height } => SemanticEditView::ImageSize {
                width,
                height,
            },
            SemanticEdit::Label(t) => SemanticEditView::Label(t@),
            SemanticEdit::Kind(t) => SemanticEditView::Kind(t@),
            SemanticEdit::Start(d) => SemanticEditView::Start(d@),
            SemanticEdit::Length(d) => SemanticEditView::Length(d@),
            SemanticEdit::Sync => SemanticEditView::Sync,
        }
    }
}

/// Whether a model makes pictures.
pub open spec fn is_image_model(m: Seq<char>) -> bool {
    m == "nanobanana"@ || m == "google/nanobanana"@ || m == "gemini-3.1-flash-image-preview"@ || m
        == "google/gemini-3.1-flash-image-preview"@ || m == "gemini-3-pro-image-preview"@ || m
        == "google/gemini-3-pro-image-preview"@ || m == "gemini-2.5-flash-image"@ || m
        == "google/gemini-2.5-flash-image"@ || m == "gpt-image-1"@ || m == "gpt-image-1.5"@ || m
        == "gpt-image-1-mini"@ || m == "openai/gpt-image-1"@ || m == "openai/gpt-image-1.5"@ || m
        == "openai/gpt-image-1-mini"@
}

fn makes_images(m: &str) -> (yes: bool)
    ensures
        yes == is_image_model(m@),
{
    text_is(m, "nanobanana") || text_is(m, "google/nanobanana") || text_is(
        m,
        "gemini-3.1-flash-image-preview",
    ) || text_is(m, "google/gemini-3.1-flash-image-preview") || text_is(
        m,
        "gemini-3-pro-image-preview",
    ) || text_is(m, "google/gemini-3-pro-image-preview") || text_is(m, "gemini-2.5-flash-image")
        || text_is(m, "google/gemini-2.5-flash-image") || text_is(m, "gpt-image-1") || text_is(
        m,
        "gpt-image-1.5",
    ) || text_is(m, "gpt-image-1-mini") || text_is(m, "openai/gpt-image-1") || text_is(
        m,
        "openai/gpt-image-1.5",
    ) || text_is(m, "openai/gpt-image-1-mini")
}

/// The request with another model, and the kind of media that it makes.
pub open spec fn with_model(o: Seq<MemberView>, model: Seq<char>) -> Seq<MemberView> {
    let named = put(o, "provider"@, JsonView::Text(model));
    if is_image_model(model) {
        put(named, "asset_mode"@, JsonView::Text("image"@))
    } else if needs_fixed_size(model, "video"@) {
        put(named, "asset_mode"@, JsonView::Text("video"@))
    } else {
        named
    }
}

/// The object with another side of the picture, or without one.
pub open spec fn with_side(o: Seq<MemberView>, key: Seq<char>, n: Option<u32>) -> Seq<MemberView> {
    match n {
        Some(n) => put(o, key, JsonView::Number(JsonNumber::Unsigned(n as u64))),
        None => without(o, key),
    }
}

/// The request with another size of the picture, or without one.
pub open spec fn with_image_size(o: Seq<MemberView>, width: Option<u32>, height: Option<u32>) -> Seq<
    MemberView,
> {
    if width is None && height is None {
        without(o, "image_options"@)
    } else {
        let size = with_side(
            with_side(object_at(o, "image_options"@), "width"@, width),
            "height"@,
            height,
        );
        let full = put(o, "image_options"@, JsonView::Object(size));
        if size.len() == 0 {
            without(full, "image_options"@)
        } else {
            full
        }
    }
}

/// The request with another prompt under a key.
pub open spec fn with_prompt(o: Seq<MemberView>, key: Seq<char>, text: Seq<char>) -> Seq<
    MemberView,
> {
    put(
        o,
        "prompts"@,
        JsonView::Object(
            without(
                put(object_at(o, "prompts"@), key, JsonView::Text(text)),
                "fallback_search_query"@,
            ),
        ),
    )
}

/// The shortest stretch.
pub const SHORTEST_STRETCH: u128 = 1_000_000;

/// The name of a model as it is kept.
pub open spec fn model_name(text: Seq<char>) -> Seq<char> {
    trimmed(lowered(trimmed(text)))
}

impl SemanticClipView {
    /// The stretch with another request.
    pub open spec fn with_schema(self, o: Seq<MemberView>) -> SemanticClipView {
        SemanticClipView { prompt_schema: JsonView::Object(o), ..self }
    }

    /// The stretch after a change, before its request is brought up to date.
    pub open spec fn changed(self, e: SemanticEditView) -> SemanticClipView {
        let o = self.prompt_schema.members();
        match e {
            SemanticEditView::AssetMode(t) => self.with_schema(
                put(o, "asset_mode"@, JsonView::Text(mode_named(t))),
            ),
            SemanticEditView::Model(t) => self.with_schema(with_model(o, model_name(t))),
            SemanticEditView::Prompt(t) => self.with_schema(
                with_prompt(o, prompt_key(self.asset_mode()), t),
            ),
            SemanticEditView::ImageSize { width, height } => self.with_schema(
                with_image_size(o, width, height),
            ),
            SemanticEditView::Label(label) => SemanticClipView { label, ..self },
            SemanticEditView::Kind(semantic_type) => SemanticClipView { semantic_type, ..self },
            SemanticEditView::Start(start) => SemanticClipView { start, ..self },
            SemanticEditView::Length(d) => SemanticClipView {
                duration: greatest(d, SHORTEST_STRETCH as int),
                ..self
            },
            SemanticEditView::Sync => self,
        }
    }

    /// The stretch after a change.
    #[verifier::opaque]
    pub open spec fn edited(self, e: SemanticEditView) -> SemanticClipView {
        self.changed(e).synced()
    }
}

fn put_side(o: &mut Vec<JsonMember>, key: &str, n: Option<u32>)
    ensures
        members(final(o)@) == with_side(members(old(o)@), key@, n),
{
    match n {
        Some(n) => put_member(o, key, JsonValue::Number(JsonNumber::Unsigned(n as u64))),
        None => remove_member(o, key),
    }
}

fn put_image_size(o: &mut Vec<JsonMember>, width: Option<u32>, height: Option<u32>)
    ensures
        members(final(o)@) == with_image_size(members(old(o)@), width, height),
{
    if width.is_none() && height.is_none() {
        remove_member(o, "image_options");
        return;
    }
    let mut size = take_object(o, "image_options");
    put_side(&mut size, "width", width);
    put_side(&mut size, "height", height);
    let empty = size.len() == 0;
    proof {
        lemma_members(size@);
    }
    put_member(o, "image_options", JsonValue::Object(size));
    if empty {
        remove_member(o, "image_options");
    }
}

fn put_model(o: &mut Vec<JsonMember>, model: &str)
    ensures
        members(final(o)@) == with_model(members(old(o)@), model@),
{
    put_text(o, "provider", model);
    if makes_images(model) {
        put_text(o, "asset_mode", "image");
    } else if semantic_provider_needs_video_1280x720(model, "video") {
        put_text(o, "asset_mode", "video");
    }
}

fn put_prompt(o: &mut Vec<JsonMember>, key: &str, text: &str)
    ensures
        members(final(o)@) == with_prompt(members(old(o)@), key@, text@),
{
    let mut prompts = take_object(o, "prompts");
    put_text(&mut prompts, key, text);
    remove_member(&mut prompts, "fallback_search_query");
    put_member(o, "prompts", JsonValue::Object(prompts));
}

impl SemanticClip {
    /// Takes the members of the request out; none of one that is no object.
    fn take_schema(&mut self) -> (o: Vec<JsonMember>)
        ensures
            members(o@) == old(self)@.prompt_schema.members(),
            final(self)@ == (SemanticClipView {
                prompt_schema: final(self)@.prompt_schema,
                ..old(self)@
            }),
    {
        let mut schema = JsonValue::Null;
        std::mem::swap(&mut schema, &mut self.prompt_schema);
        match schema {
            JsonValue::Object(o) => o,
            _ => {
                let none: Vec<JsonMember> = Vec::new();
                assert(members(none@) =~= seq![]);
                none
            },
        }
    }

    fn edit(&mut self, e: &SemanticEdit)
        ensures
            final(self)@ == old(self)@.edited(e@),
    {
        reveal(SemanticClipView::edited);
        match e {
            SemanticEdit::AssetMode(t) => {
                let mode = normalize_semantic_asset_mode(t.as_str());
                let mut o = self.take_schema();
                put_text(&mut o, "asset_mode", mode);
                self.prompt_schema = JsonValue::Object(o);
            },
            SemanticEdit::Model(t) => {
                let model = trim(to_ascii_lowercase(trim(t.as_str()).as_str()).as_str());
                let mut o = self.take_schema();
                put_model(&mut o, model.as_str());
                self.prompt_schema = JsonValue::Object(o);
            },
            SemanticEdit::Prompt(t) => {
                let mode = self.find_asset_mode();
                let key = semantic_prompt_key_for_mode(mode.as_str());
                let mut o = self.take_schema();
                put_prompt(&mut o, key, t.as_str());
                self.prompt_schema = JsonValue::Object(o);
            },
            SemanticEdit::ImageSize { width, height } => {
                let mut o = self.take_schema();
                put_image_size(&mut o, *width, *height);
                self.prompt_schema = JsonValue::Object(o);
            },
            SemanticEdit::Label(t) => {
                self.label = owned(t.as_str());
            },
            SemanticEdit::Kind(t) => {
                self.semantic_type = owned(t.as_str());
            },
            SemanticEdit::Start(d) => {
                self.start = *d;
            },
            SemanticEdit::Length(d) => {
                self.duration = (*d).max(Duration { nanos: SHORTEST_STRETCH });
            },
            SemanticEdit::Sync => {},
        }
        sync_semantic_prompt_schema_fields(self);
    }
}

impl TimelineView {
    /// The timeline with a change of the stretch with the id.
    #[verifier::opaque]
    pub open spec fn with_semantic_edit(self, id: u64, e: SemanticEditView) -> TimelineView {
        let at = semantic_place(self.semantic_clips, id);
        if at < self.semantic_clips.len() {
            TimelineView {
                semantic_clips: self.semantic_clips.update(at, self.semantic_clips[at].edited(e)),
                ..self
            }
        } else {
            self
        }
    }

    /// The selected stretch.
    pub open spec fn the_selected_semantic(self) -> Option<SemanticClipView> {
        match self.selected_semantic_clip_id {
            Some(id) => if semantic_place(self.semantic_clips, id) < self.semantic_clips.len() {
                Some(self.semantic_clips[semantic_place(self.semantic_clips, id)])
            } else {
                None
            },
            None => None,
        }
    }

    /// The timeline with a change of the selected stretch.
    pub open spec fn with_selected_semantic_edit(self, e: SemanticEditView) -> TimelineView {
        match self.selected_semantic_clip_id {
            Some(id) => self.with_semantic_edit(id, e),
            None => self,
        }
    }
}

/// Stretches in order of their starts.
pub open spec fn semantics_by_start(clips: Seq<SemanticClipView>) -> Seq<SemanticClipView> {
    ordered(clips, |c: SemanticClipView| c.start)
}

fn sort_semantics(clips: &mut Vec<SemanticClip>)
    ensures
        views(final(clips)@) == semantics_by_start(views(old(clips)@)),
{
    let ghost before = clips@;
    sort_by_time(clips);
    proof {
        lemma_ordered_views(
            before,
            |c: SemanticClip| c.at(),
            |c: SemanticClipView| c.start,
        );
    }
}

impl Timeline {
    fn edit_semantic(&mut self, id: u64, e: &SemanticEdit)
        ensures
            final(self)@ == old(self)@.with_semantic_edit(id, e@),
    {
        reveal(TimelineView::with_semantic_edit);
        let at = find_semantic(&self.semantic_clips, id);
        if at < self.semantic_clips.len() {
            let ghost before = self.semantic_clips@;
            self.semantic_clips[at].edit(e);
            assert(self.semantic_clips@ =~= before.update(
                at as int,
                self.semantic_clips@[at as int],
            ));
        }
    }

    fn selected_semantic_stretch(&self) -> (c: Option<&SemanticClip>)
        ensures
            match (c, self@.the_selected_semantic()) {
                (Some(a), Some(b)) => a@ == b,
                (None, None) => true,
                _ => false,
            },
    {
        match self.selected_semantic_clip_id {
            Some(id) => {
                let at = find_semantic(&self.semantic_clips, id);
                if at < self.semantic_clips.len() {
                    Some(&self.semantic_clips[at])
                } else {
                    None
                }
            },
            None => None,
        }
    }

    fn sync_all_semantics(&mut self)
        ensures
            final(self)@ == (TimelineView {
                semantic_clips: old(self)@.semantic_clips.map_values(
                    |c: SemanticClipView| c.synced(),
                ),
                ..old(self)@
            }),
    {
        let ghost base = self@;
        let ghost before = self.semantic_clips@;
        let n: usize = self.semantic_clips.len();
        let mut i: usize = 0;
        while i < n
            invariant
                i <= n,
                n == before.len(),
                self.semantic_clips.len() == n,
                self@ == (TimelineView { semantic_clips: self@.semantic_clips, ..base }),
                forall|k: int|
                    0 <= k < i ==> (#[trigger] self.semantic_clips@[k])@ == before[k]@.synced(),
                forall|k: int| i <= k < n ==> #[trigger] self.semantic_clips@[k] == before[k],
            decreases n - i,
        {
            let ghost now = self.semantic_clips@;
            sync_semantic_prompt_schema_fields(&mut self.semantic_clips[i]);
            assert(self.semantic_clips@ =~= now.update(i as int, self.semantic_clips@[i as int]));
            i += 1;
        }
        assert(views(self.semantic_clips@) =~= views(before).map_values(
            |c: SemanticClipView| c.synced(),
        ));
    }
}

impl GlobalState {
    /// The stretches.
    pub fn semantic_clips(&self) -> (clips: &Vec<SemanticClip>)
        ensures
            views(clips@) == self@.timeline.semantic_clips,
    {
        &self.timeline.semantic_clips
    }

    /// Brings the requests of all stretches up to date.
    pub fn normalize_all_semantic_prompt_schemas(&mut self)
        ensures
            final(self)@ == (StateView {
                timeline: TimelineView {
                    semantic_clips: old(self)@.timeline.semantic_clips.map_values(
                        |c: SemanticClipView| c.synced(),
                    ),
                    ..old(self)@.timeline
                },
                ..old(self)@
            }),
    {
        self.timeline.sync_all_semantics();
    }

    /// The id of the selected stretch, if it is there.
    pub fn selected_semantic_clip_id(&self) -> (id: Option<u64>)
        ensures
            id == self@.timeline.selected_semantic(),
    {
        self.timeline.selected_semantic()
    }

    /// Selects no stretch.
    pub fn clear_semantic_clip_selection(&mut self)
        ensures
            final(self)@ == (StateView {
                timeline: TimelineView {
                    selected_semantic_clip_id: None,
                    ..old(self)@.timeline
                },
                ..old(self)@
            }),
    {
        self.timeline.selected_semantic_clip_id = None;
    }

    fn edit_selected_semantic(&mut self, e: SemanticEdit)
        ensures
            final(self)@ == (StateView {
                timeline: old(self)@.timeline.with_selected_semantic_edit(e@),
                ..old(self)@
            }),
    {
        if let Some(id) = self.timeline.selected_semantic_clip_id {
            self.timeline.edit_semantic(id, &e);
        }
    }

    /// Asks for another kind of media.
    pub fn set_selected_semantic_asset_mode(&mut self, mode: String)
        ensures
            final(self)@ == (StateView {
                timeline: old(self)@.timeline.with_selected_semantic_edit(
                    SemanticEditView::AssetMode(mode@),
                ),
                ..old(self)@
            }),
    {
        self.edit_selected_semantic(SemanticEdit::AssetMode(mode));
    }

    /// Asks another model; an empty name changes nothing.
    pub fn set_selected_semantic_model(&mut self, model: String)
        ensures
            final(self)@ == if model_name(model@).len() == 0 {
                old(self)@
            } else {
                StateView {
                    timeline: old(self)@.timeline.with_selected_semantic_edit(
                        SemanticEditView::Model(model@),
                    ),
                    ..old(self)@
                }
            },
    {
        let name = trim(to_ascii_lowercase(trim(model.as_str()).as_str()).as_str());
        if name.as_str().unicode_len() == 0 {
            return;
        }
        self.edit_selected_semantic(SemanticEdit::Model(model));
    }

    /// Changes the prompt for the kind of media that is asked for.
    pub fn set_selected_semantic_prompt_text(&mut self, text: String)
        ensures
            final(self)@ == (StateView {
                timeline: old(self)@.timeline.with_selected_semantic_edit(
                    SemanticEditView::Prompt(text@),
                ),
                ..old(self)@
            }),
    {
        self.edit_selected_semantic(SemanticEdit::Prompt(text));
    }

    /// Asks for another size of the picture.
    pub fn set_selected_semantic_image_size(&mut self, width: Option<u32>, height: Option<u32>)
        ensures
            final(self)@ == (StateView {
                timeline: old(self)@.timeline.with_selected_semantic_edit(
                    SemanticEditView::ImageSize { width, height },
                ),
                ..old(self)@
            }),
    {
        self.edit_selected_semantic(SemanticEdit::ImageSize { width, height });
    }

    /// Changes the label of the selected stretch.
    pub fn set_selected_semantic_label(&mut self, text: String)
        ensures
            final(self)@ == (StateView {
                timeline: old(self)@.timeline.with_selected_semantic_edit(
                    SemanticEditView::Label(text@),
                ),
                ..old(self)@
            }),
    {
        self.edit_selected_semantic(SemanticEdit::Label(text));
    }

    /// Changes the kind of the selected stretch.
    pub fn set_selected_semantic_type(&mut self, text: String)
        ensures
            final(self)@ == (StateView {
                timeline: old(self)@.timeline.with_selected_semantic_edit(
                    SemanticEditView::Kind(text@),
                ),
                ..old(self)@
            }),
    {
        self.edit_selected_semantic(SemanticEdit::Kind(text));
    }

    /// The label of the selected stretch.
    pub fn get_selected_semantic_label(&self) -> (text: Option<String>)
        ensures
            optional(text) == match self@.timeline.the_selected_semantic() {
                Some(c) => Some(c.label),
                None => None,
            },
    {
        match self.timeline.selected_semantic_stretch() {
            Some(c) => Some(owned(c.label.as_str())),
            None => None,
        }
    }

    /// The kind of the selected stretch.
    pub fn get_selected_semantic_type(&self) -> (text: Option<String>)
        ensures
            optional(text) == match self@.timeline.the_selected_semantic() {
                Some(c) => Some(c.semantic_type),
                None => None,
            },
    {
        match self.timeline.selected_semantic_stretch() {
            Some(c) => Some(owned(c.semantic_type.as_str())),
            None => None,
        }
    }

    /// The request of the selected stretch.
    pub fn get_selected_semantic_schema(&self) -> (schema: Option<JsonValue>)
        ensures
            optional(schema) == match self@.timeline.the_selected_semantic() {
                Some(c) => Some(c.prompt_schema),
                None => None,
            },
    {
        match self.timeline.selected_semantic_stretch() {
            Some(c) => Some(c.prompt_schema.clone()),
            None => None,
        }
    }

    /// The request of the selected stretch as a text of several lines.
    pub fn get_selected_semantic_schema_json(&self) -> (text: Option<String>)
        ensures
            optional(text) == match self@.timeline.the_selected_semantic() {
                Some(c) => text_in_lines(written(c.prompt_schema)),
                None => None,
            },
    {
        match self.timeline.selected_semantic_stretch() {
            Some(c) => write_in_lines(&c.prompt_schema),
            None => None,
        }
    }

    /// The length of the selected stretch in seconds, as a JSON number.
    pub fn get_selected_semantic_duration_sec(&self) -> (n: Option<JsonNumber>)
        ensures
            n == match self@.timeline.the_selected_semantic() {
                Some(c) => Some(json_seconds(c.duration)),
                None => None,
            },
    {
        match self.timeline.selected_semantic_stretch() {
            Some(c) => Some(semantic_duration_sec(c.duration)),
            None => None,
        }
    }

    /// The kind of media that the selected stretch asks for.
    pub fn get_selected_semantic_asset_mode(&self) -> (text: Option<String>)
        ensures
            optional(text) == match self@.timeline.the_selected_semantic() {
                Some(c) => Some(c.asset_mode()),
                None => None,
            },
    {
        match self.timeline.selected_semantic_stretch() {
            Some(c) => Some(c.find_asset_mode()),
            None => None,
        }
    }

    /// The model that the selected stretch asks.
    pub fn get_selected_semantic_model(&self) -> (text: Option<String>)
        ensures
            optional(text) == match self@.timeline.the_selected_semantic() {
                Some(c) => Some(c.provider()),
                None => None,
            },
    {
        match self.timeline.selected_semantic_stretch() {
            Some(c) => Some(c.find_provider()),
            None => None,
        }
    }

    /// The prompt for the kind of media that the selected stretch asks for.
    pub fn get_selected_semantic_prompt_text(&self) -> (text: Option<String>)
        ensures
            optional(text) == match self@.timeline.the_selected_semantic() {
                Some(c) => c.prompt(),
                None => None,
            },
    {
        match self.timeline.selected_semantic_stretch() {
            Some(c) => c.find_prompt(),
            None => None,
        }
    }

    /// The size of the picture that the selected stretch asks for.
    pub fn get_selected_semantic_image_size(&self) -> (size: Option<(Option<u32>, Option<u32>)>)
        ensures
            size == match self@.timeline.the_selected_semantic() {
                Some(c) => Some((c.image_side("width"@), c.image_side("height"@))),
                None => None,
            },
    {
        match self.timeline.selected_semantic_stretch() {
            Some(c) => Some((c.find_image_side("width"), c.find_image_side("height"))),
            None => None,
        }
    }

    /// Checks the request of the selected stretch.
    pub fn validate_selected_semantic_schema<
        F: Fn(JsonNumber, Duration) -> Option<(String, String)>,
    >(&self, mismatch: F) -> (v: Option<SemanticSchemaValidation>)
        requires
            forall|n: JsonNumber, d: Duration| #[trigger] call_requires(mismatch, (n, d)),
        ensures
            match self@.timeline.the_selected_semantic() {
                None => v is None,
                Some(c) => v matches Some(found) && is_check_of(
                    c,
                    mismatch,
                    views(found.errors@),
                    views(found.warnings@),
                ),
            },
    {
        match self.timeline.selected_semantic_stretch() {
            Some(c) => Some(validate_semantic_prompt_schema(c, mismatch)),
            None => None,
        }
    }
}

// ---------------------------------------------------------------------------
// A request from outside
// ---------------------------------------------------------------------------

/// Whether a number is above nothing and finite.
pub open spec fn is_length(n: JsonNumber) -> bool {
    match n {
        JsonNumber::Unsigned(u) => u > 0,
        JsonNumber::Negative(_) => false,
        JsonNumber::Double(bits) => 0 < bits < crate::double::REAL_INFINITE,
    }
}

fn can_be_length(n: JsonNumber) -> (yes: bool)
    ensures
        yes == is_length(n),
{
    match n {
        JsonNumber::Unsigned(u) => u > 0,
        JsonNumber::Negative(_) => false,
        JsonNumber::Double(bits) => 0 < bits && bits < crate::double::REAL_INFINITE,
    }
}

/// The length of so many seconds in nanoseconds; none where it is longer than the longest.
pub open spec fn nanos_said(n: JsonNumber) -> Option<int> {
    match n {
        JsonNumber::Unsigned(u) => nanos_in(number_near((u * pow2(1074)) as int)),
        JsonNumber::Negative(_) => None,
        JsonNumber::Double(bits) => nanos_in(Real { bits }),
    }
}

fn find_length(n: JsonNumber) -> (d: Option<Duration>)
    ensures
        match nanos_said(n) {
            Some(nanos) => d matches Some(length) && length@ == nanos,
            None => d is None,
        },
{
    match n {
        JsonNumber::Unsigned(u) => length_in(find_number_near(u as u128, 0)),
        JsonNumber::Negative(_) => None,
        JsonNumber::Double(bits) => length_in(Real { bits }),
    }
}

/// The length that a request says, or what is wrong with it.
pub open spec fn said_length(o: Seq<MemberView>) -> Result<Option<JsonNumber>, bool> {
    match lookup(o, "duration_sec"@) {
        None => Ok(None),
        Some(JsonView::Number(n)) => if is_length(n) {
            Ok(Some(n))
        } else {
            Err(true)
        },
        Some(_) => Err(false),
    }
}

/// The goal that a request says, if it says one.
pub open spec fn said_goal(o: Seq<MemberView>) -> Option<Seq<char>> {
    match text_at(o, "semantic_goal"@) {
        Some(t) => if trimmed(t).len() > 0 {
            Some(trimmed(t))
        } else {
            None
        },
        None => None,
    }
}

impl SemanticClipView {
    /// The stretch with a request from outside, which can change its length and its kind. A
    /// length is a millisecond at least.
    #[verifier::opaque]
    pub open spec fn with_request(self, schema: JsonView) -> SemanticClipView {
        let o = schema.members();
        SemanticClipView {
            duration: match said_length(o) {
                Ok(Some(n)) => match nanos_said(n) {
                    Some(nanos) => greatest(nanos, SHORTEST_STRETCH as int),
                    None => self.duration,
                },
                _ => self.duration,
            },
            semantic_type: match said_goal(o) {
                Some(goal) => goal,
                None => self.semantic_type,
            },
            prompt_schema: schema,
            ..self
        }.synced()
    }
}

impl TimelineView {
    /// The timeline with a request from outside for the stretch at a place.
    pub open spec fn with_request_at(self, at: int, schema: JsonView) -> TimelineView {
        TimelineView {
            semantic_clips: self.semantic_clips.update(
                at,
                self.semantic_clips[at].with_request(schema),
            ),
            ..self
        }
    }
}

fn find_said_length(schema: &JsonValue) -> (r: Result<Option<JsonNumber>, GlobalStateError>)
    ensures
        match said_length(schema@.members()) {
            Ok(n) => r == Ok::<_, GlobalStateError>(n),
            Err(true) => r == Err::<Option<JsonNumber>, _>(
                GlobalStateError::InvalidSemanticDurationValue,
            ),
            Err(false) => r == Err::<Option<JsonNumber>, _>(
                GlobalStateError::InvalidSemanticDurationType,
            ),
        },
{
    match schema {
        JsonValue::Object(o) => match get_member(o, "duration_sec") {
            None => Ok(None),
            Some(JsonValue::Number(n)) => if can_be_length(*n) {
                Ok(Some(*n))
            } else {
                Err(GlobalStateError::InvalidSemanticDurationValue)
            },
            Some(_) => Err(GlobalStateError::InvalidSemanticDurationType),
        },
        _ => {
            proof {
                lemma_nothing_found("duration_sec"@);
            }
            Ok(None)
        },
    }
}

fn find_said_goal(schema: &JsonValue) -> (t: Option<String>)
    ensures
        optional(t) == said_goal(schema@.members()),
{
    match schema {
        JsonValue::Object(o) => match get_text(o, "semantic_goal") {
            Some(t) => {
                let plain = trim(t.as_str());
                if plain.as_str().unicode_len() > 0 {
                    Some(plain)
                } else {
                    None
                }
            },
            None => None,
        },
        _ => {
            proof {
                lemma_nothing_found("semantic_goal"@);
            }
            None
        },
    }
}

impl SemanticClip {
    fn take_request(&mut self, schema: JsonValue, length: Option<Duration>)
        requires
            match said_length(schema@.members()) {
                Ok(Some(n)) => length matches Some(d) && nanos_said(n) == Some(d@),
                _ => length is None,
            },
        ensures
            final(self)@ == old(self)@.with_request(schema@),
    {
        reveal(SemanticClipView::with_request);
        if let Some(length) = length {
            self.duration = length.max(Duration { nanos: SHORTEST_STRETCH });
        }
        if let Some(goal) = find_said_goal(&schema) {
            self.semantic_type = goal;
        }
        self.prompt_schema = schema;
        sync_semantic_prompt_schema_fields(self);
    }
}

impl Timeline {
    fn take_request_at(&mut self, at: usize, schema: JsonValue, length: Option<Duration>)
        requires
            at < old(self)@.semantic_clips.len(),
            match said_length(schema@.members()) {
                Ok(Some(n)) => length matches Some(d) && nanos_said(n) == Some(d@),
                _ => length is None,
            },
        ensures
            final(self)@ == old(self)@.with_request_at(at as int, schema@),
    {
        let ghost before = self.semantic_clips@;
        self.semantic_clips[at].take_request(schema, length);
        assert(self.semantic_clips@ =~= before.update(at as int, self.semantic_clips@[at as int]));
    }
}

impl StateView {
    /// Whether a request from outside for the selected stretch leads to what is returned and to the
    /// state after it. The request is a document, or what is wrong with a text that is none. A
    /// length past the longest is refused as one that is none.
    pub open spec fn asked_by(
        self,
        request: Result<JsonView, Seq<char>>,
        done: Result<(), GlobalStateError>,
        after: StateView,
    ) -> bool {
        let t = self.timeline;
        match (t.selected_semantic_clip_id, request) {
            (None, _) => done == Err::<(), _>(GlobalStateError::NoSemanticClipSelected) && after
                == self,
            (Some(_), Err(why)) => (done matches Err(
                GlobalStateError::InvalidSemanticSchemaJson { message },
            ) && message@ == why) && after == self,
            (Some(id), Ok(schema)) => match said_length(schema.members()) {
                Err(true) => done == Err::<(), _>(GlobalStateError::InvalidSemanticDurationValue)
                    && after == self,
                Err(false) => done == Err::<(), _>(GlobalStateError::InvalidSemanticDurationType)
                    && after == self,
                Ok(said) => {
                    let at = semantic_place(t.semantic_clips, id);
                    if at >= t.semantic_clips.len() {
                        done == Err::<(), _>(GlobalStateError::SelectedSemanticClipMissing) && after
                            == self
                    } else if said is Some && nanos_said(said->0) is None {
                        done == Err::<(), _>(GlobalStateError::InvalidSemanticDurationValue)
                            && after == self
                    } else {
                        done == Ok::<(), GlobalStateError>(()) && after == (StateView {
                            timeline: t.with_request_at(at, schema),
                            ..self
                        })
                    }
                },
            },
        }
    }
}

/// The request that stands in a text, or what is wrong with the text.
pub open spec fn request_in(text: Seq<char>) -> Result<JsonView, Seq<char>> {
    match document_in(trimmed(text)) {
        Some(schema) => Ok(schema),
        None => Err(complaint_about(trimmed(text))),
    }
}

impl GlobalState {
    /// Gives the selected stretch a request from outside, as it was read. Its duration_sec counts
    /// if there is one, for a millisecond at least.
    pub fn set_selected_semantic_schema(&mut self, parsed: Result<JsonValue, String>) -> (done:
        Result<(), GlobalStateError>)
        ensures
            old(self)@.asked_by(
                match parsed {
                    Ok(schema) => Ok(schema@),
                    Err(why) => Err(why@),
                },
                done,
                final(self)@,
            ),
    {
        let id = match self.timeline.selected_semantic_clip_id {
            Some(id) => id,
            None => {
                return Err(GlobalStateError::NoSemanticClipSelected);
            },
        };
        let schema = match parsed {
            Ok(schema) => schema,
            Err(message) => {
                return Err(GlobalStateError::InvalidSemanticSchemaJson { message });
            },
        };
        let said = match find_said_length(&schema) {
            Ok(said) => said,
            Err(e) => {
                return Err(e);
            },
        };
        let at = find_semantic(&self.timeline.semantic_clips, id);
        if at >= self.timeline.semantic_clips.len() {
            return Err(GlobalStateError::SelectedSemanticClipMissing);
        }
        let length = match said {
            Some(n) => match find_length(n) {
                Some(length) => Some(length),
                None => {
                    return Err(GlobalStateError::InvalidSemanticDurationValue);
                },
            },
            None => None,
        };
        self.timeline.take_request_at(at, schema, length);
        Ok(())
    }

    /// Gives the selected stretch the request that stands in a text.
    pub fn set_selected_semantic_schema_json(&mut self, json_text: String) -> (done: Result<
        (),
        GlobalStateError,
    >)
        ensures
            old(self)@.asked_by(request_in(json_text@), done, final(self)@),
    {
        if self.timeline.selected_semantic_clip_id.is_none() {
            return Err(GlobalStateError::NoSemanticClipSelected);
        }
        self.set_selected_semantic_schema(read_document(json_text.as_str()))
    }
}

// ---------------------------------------------------------------------------
// Stretches
// ---------------------------------------------------------------------------

/// A stretch with the request that it has at first.
pub open spec fn new_semantic(
    id: u64,
    start: int,
    duration: int,
    semantic_type: Seq<char>,
    label: Seq<char>,
) -> SemanticClipView {
    SemanticClipView {
        id,
        start,
        duration,
        semantic_type,
        label,
        prompt_schema: JsonView::Object(usual_schema(id, duration, semantic_type, label)),
    }
}

fn make_semantic(
    id: u64,
    start: Duration,
    duration: Duration,
    semantic_type: String,
    label: String,
) -> (c: SemanticClip)
    ensures
        c@ == new_semantic(id, start@, duration@, semantic_type@, label@),
{
    let prompt_schema = default_semantic_prompt_schema(
        id,
        duration,
        semantic_type.as_str(),
        label.as_str(),
    );
    SemanticClip { id, start, duration, semantic_type, label, prompt_schema }
}

impl TimelineView {
    /// The timeline with one more stretch.
    #[verifier::opaque]
    pub open spec fn with_semantic(self, c: SemanticClipView) -> TimelineView {
        TimelineView {
            semantic_clips: semantics_by_start(self.semantic_clips.push(c)),
            ..self
        }
    }

    /// The timeline with a stretch selected, and no layer effect.
    pub open spec fn semantic_selected(self, id: u64) -> TimelineView {
        TimelineView {
            selected_semantic_clip_id: Some(id),
            selected_layer_effect_clip_id: None,
            ..self
        }
    }
}

impl Timeline {
    fn add_semantic(&mut self, c: SemanticClip)
        ensures
            final(self)@ == old(self)@.with_semantic(c@),
    {
        reveal(TimelineView::with_semantic);
        let ghost before = self.semantic_clips@;
        self.semantic_clips.push(c);
        assert(views(self.semantic_clips@) =~= views(before).push(c@));
        sort_semantics(&mut self.semantic_clips);
    }
}

impl StateView {
    /// The state with a stretch selected and nothing else, if it is there.
    pub open spec fn semantic_chosen(self, id: u64) -> StateView {
        if semantic_place(self.timeline.semantic_clips, id) < self.timeline.semantic_clips.len() {
            StateView {
                timeline: self.timeline.semantic_selected(id),
                selection: SelectionView::nothing(),
                ..self
            }
        } else {
            StateView {
                timeline: TimelineView { selected_semantic_clip_id: None, ..self.timeline },
                ..self
            }
        }
    }

    /// The state with a new stretch, which is selected.
    #[verifier::opaque]
    pub open spec fn with_new_semantic(self, start: int, duration: int, notice: Seq<char>) -> StateView {
        let s = self.saved(false);
        let c = new_semantic(
            s.next_clip_id,
            start,
            duration,
            "content_support"@,
            "semantic"@,
        );
        let chosen = StateView {
            timeline: s.timeline.with_semantic(c),
            next_clip_id: next_number(s.next_clip_id),
            ..s
        }.semantic_chosen(s.next_clip_id);
        StateView {
            timeline: TimelineView { semantic_mark_start: None, ..chosen.timeline },
            ui_notice: Some(notice),
            ..chosen
        }
    }
}

impl GlobalState {
    /// Selects a stretch and nothing else; no stretch where it is not there.
    pub fn select_semantic_clip(&mut self, clip_id: u64)
        ensures
            final(self)@ == old(self)@.semantic_chosen(clip_id),
    {
        if find_semantic(&self.timeline.semantic_clips, clip_id)
            >= self.timeline.semantic_clips.len() {
            self.timeline.selected_semantic_clip_id = None;
            return;
        }
        self.timeline.selected_semantic_clip_id = Some(clip_id);
        self.timeline.selected_layer_effect_clip_id = None;
        self.selection.clear();
    }

    /// Marks where a stretch starts.
    pub fn mark_semantic_start_at_playhead(&mut self)
        ensures
            final(self)@ == (StateView {
                timeline: TimelineView {
                    semantic_mark_start: Some(
                        Duration { nanos: old(self)@.timeline.playhead as u128 },
                    ),
                    ..old(self)@.timeline
                },
                ui_notice: Some(
                    "Semantic start marked at "@ + short_seconds(old(self)@.timeline.playhead)
                        + "s. Press K to close segment."@,
                ),
                ..old(self)@
            }),
    {
        let at = self.timeline.playhead;
        self.timeline.semantic_mark_start = Some(at);
        self.ui_notice =
        Some(
            joined3(
                "Semantic start marked at ",
                short_seconds_text(at).as_str(),
                "s. Press K to close segment.",
            ),
        );
    }

    fn add_new_semantic(&mut self, start: Duration, duration: Duration, notice: String)
        ensures
            final(self)@ == old(self)@.with_new_semantic(start@, duration@, notice@),
    {
        reveal(StateView::with_new_semantic);
        self.save_for_undo();
        let id = take_id(&mut self.next_clip_id);
        let c = make_semantic(id, start, duration, owned("content_support"), owned("semantic"));
        self.timeline.add_semantic(c);
        self.select_semantic_clip(id);
        self.timeline.semantic_mark_start = None;
        self.ui_notice = Some(notice);
    }

    /// Makes a stretch from the mark to the playhead, whichever comes first. Says whether there
    /// was a mark.
    pub fn commit_semantic_segment_at_playhead(&mut self) -> (done: bool)
        ensures
            done == old(self)@.timeline.semantic_mark_start is Some,
            final(self)@ == match old(self)@.timeline.semantic_mark_start {
                None => StateView {
                    ui_notice: Some("No semantic start mark. Press J first."@),
                    ..old(self)@
                },
                Some(mark) => {
                    let start = least(mark@, old(self)@.timeline.playhead);
                    let end = greatest(mark@, old(self)@.timeline.playhead);
                    let duration = if end > start {
                        end - start
                    } else {
                        SHORTEST_STRETCH as int
                    };
                    old(self)@.with_new_semantic(
                        start,
                        duration,
                        "Semantic segment added: "@ + short_seconds(start) + "s -> "@
                            + short_seconds(least(start + duration, MAX_NANOS as int)) + "s"@,
                    )
                },
            },
    {
        let mark = match self.timeline.semantic_mark_start {
            Some(mark) => mark,
            None => {
                self.ui_notice = Some(owned("No semantic start mark. Press J first."));
                return false;
            },
        };
        let start = mark.min(self.timeline.playhead);
        let end = mark.max(self.timeline.playhead);
        let duration = if end.nanos > start.nanos {
            end.saturating_sub(start)
        } else {
            Duration { nanos: SHORTEST_STRETCH }
        };
        let front = joined3(
            "Semantic segment added: ",
            short_seconds_text(start).as_str(),
            "s -> ",
        );
        let notice = joined3(
            front.as_str(),
            short_seconds_text(start.saturating_add(duration)).as_str(),
            "s",
        );
        self.add_new_semantic(start, duration, notice);
        true
    }

    /// Makes a stretch of two seconds at the playhead.
    pub fn add_semantic_clip_at_playhead(&mut self) -> (done: bool)
        ensures
            done,
            final(self)@ == old(self)@.with_new_semantic(
                old(self)@.timeline.playhead,
                2_000_000_000,
                "Semantic segment added at "@ + short_seconds(old(self)@.timeline.playhead)
                    + "s ("@ + short_seconds(2_000_000_000) + "s)."@,
            ),
    {
        let start = self.timeline.playhead;
        let duration = Duration { nanos: 2_000_000_000 };
        let front = joined3(
            "Semantic segment added at ",
            short_seconds_text(start).as_str(),
            "s (",
        );
        let notice = joined3(front.as_str(), short_seconds_text(duration).as_str(), "s).");
        self.add_new_semantic(start, duration, notice);
        true
    }
}

/// The text, or another where it is nothing but white space.
pub open spec fn filled_or(text: Seq<char>, usual: Seq<char>) -> Seq<char> {
    if trimmed(text).len() == 0 {
        usual
    } else {
        text
    }
}

fn fill_or(text: String, usual: &str) -> (t: String)
    ensures
        t@ == filled_or(text@, usual@),
{
    if trim(text.as_str()).as_str().unicode_len() == 0 {
        owned(usual)
    } else {
        text
    }
}

/// A stretch that is placed with a request of its own, or with the usual one.
pub open spec fn placed_semantic(
    id: u64,
    start: int,
    duration: int,
    semantic_type: Seq<char>,
    label: Seq<char>,
    schema: Option<JsonView>,
) -> SemanticClipView {
    let plain = new_semantic(
        id,
        start,
        duration,
        filled_or(semantic_type, "content_support"@),
        filled_or(label, "semantic"@),
    );
    match schema {
        Some(s) => SemanticClipView { prompt_schema: s, ..plain }.synced(),
        None => plain.synced(),
    }
}

impl StateView {
    /// The state with a stretch placed.
    #[verifier::opaque]
    pub open spec fn with_placed_semantic(
        self,
        start: int,
        duration: int,
        semantic_type: Seq<char>,
        label: Seq<char>,
        schema: Option<JsonView>,
    ) -> StateView {
        let s = self.saved(false);
        StateView {
            timeline: s.timeline.with_semantic(
                placed_semantic(s.next_clip_id, start, duration, semantic_type, label, schema),
            ),
            next_clip_id: next_number(s.next_clip_id),
            ..s
        }
    }
}

fn place_semantic(
    id: u64,
    start: Duration,
    duration: Duration,
    semantic_type: String,
    label: String,
    prompt_schema: Option<JsonValue>,
) -> (c: SemanticClip)
    ensures
        c@ == placed_semantic(
            id,
            start@,
            duration@,
            semantic_type@,
            label@,
            optional(prompt_schema),
        ),
{
    let mut c = make_semantic(
        id,
        start,
        duration,
        fill_or(semantic_type, "content_support"),
        fill_or(label, "semantic"),
    );
    if let Some(s) = prompt_schema {
        c.prompt_schema = s;
    }
    sync_semantic_prompt_schema_fields(&mut c);
    c
}

impl GlobalState {
    /// Places a stretch anywhere.
    pub fn insert_semantic_clip(
        &mut self,
        start: Duration,
        duration: Duration,
        semantic_type: String,
        label: String,
        prompt_schema: Option<JsonValue>,
    ) -> (done: bool)
        ensures
            done,
            final(self)@ == old(self)@.with_placed_semantic(
                start@,
                duration@,
                semantic_type@,
                label@,
                optional(prompt_schema),
            ),
    {
        reveal(StateView::with_placed_semantic);
        self.save_for_undo();
        let id = take_id(&mut self.next_clip_id);
        let c = place_semantic(id, start, duration, semantic_type, label, prompt_schema);
        self.timeline.add_semantic(c);
        true
    }

    /// Moves a stretch. Says whether it is there.
    pub fn move_semantic_clip(&mut self, clip_id: u64, new_start: Duration) -> (done: bool)
        ensures
            done == (semantic_place(old(self)@.timeline.semantic_clips, clip_id) < old(
                self,
            )@.timeline.semantic_clips.len()),
            final(self)@ == if done {
                let t = old(self)@.timeline.with_semantic_edit(
                    clip_id,
                    SemanticEditView::Start(new_start@),
                );
                StateView {
                    timeline: TimelineView {
                        semantic_clips: semantics_by_start(t.semantic_clips),
                        selected_semantic_clip_id: Some(clip_id),
                        ..t
                    },
                    ..old(self)@
                }
            } else {
                old(self)@
            },
    {
        if find_semantic(&self.timeline.semantic_clips, clip_id)
            >= self.timeline.semantic_clips.len() {
            return false;
        }
        let e = SemanticEdit::Start(new_start);
        self.timeline.edit_semantic(clip_id, &e);
        sort_semantics(&mut self.timeline.semantic_clips);
        self.timeline.selected_semantic_clip_id = Some(clip_id);
        true
    }

    /// Makes a stretch longer or shorter. Says whether it is there.
    pub fn resize_semantic_clip(&mut self, clip_id: u64, new_duration: Duration) -> (done: bool)
        ensures
            done == (semantic_place(old(self)@.timeline.semantic_clips, clip_id) < old(
                self,
            )@.timeline.semantic_clips.len()),
            final(self)@ == if done {
                let t = old(self)@.timeline.with_semantic_edit(
                    clip_id,
                    SemanticEditView::Length(new_duration@),
                );
                StateView {
                    timeline: TimelineView { selected_semantic_clip_id: Some(clip_id), ..t },
                    ..old(self)@
                }
            } else {
                old(self)@
            },
    {
        if find_semantic(&self.timeline.semantic_clips, clip_id)
            >= self.timeline.semantic_clips.len() {
            return false;
        }
        let e = SemanticEdit::Length(new_duration);
        self.timeline.edit_semantic(clip_id, &e);
        self.timeline.selected_semantic_clip_id = Some(clip_id);
        true
    }
}

impl TimelineView {
    /// The timeline without a stretch, and none selected.
    #[verifier::opaque]
    pub open spec fn without_semantic(self, id: u64) -> TimelineView {
        TimelineView {
            semantic_clips: self.semantic_clips.filter(|c: SemanticClipView| c.id != id),
            selected_semantic_clip_id: None,
            ..self
        }
    }
}

impl Timeline {
    fn drop_semantic(&mut self, id: u64)
        ensures
            final(self)@ == old(self)@.without_semantic(id),
    {
        reveal(TimelineView::without_semantic);
        let ghost before = self.semantic_clips@;
        let ghost p = |c: SemanticClip| c.id != id;
        let keep = |c: &SemanticClip| -> (yes: bool)
            ensures
                yes == (c.id != id),
        {
            c.id != id
        };
        retain_by(&mut self.semantic_clips, keep, Ghost(p));
        proof {
            lemma_filter_views(before, p, |c: SemanticClipView| c.id != id);
        }
        self.selected_semantic_clip_id = None;
    }
}

impl StateView {
    /// The state with a copy of a stretch, which is selected and nothing else.
    #[verifier::opaque]
    pub open spec fn semantic_duplicated(self, at: int, new_start: int) -> StateView {
        let s = self.saved(false);
        let copy = SemanticClipView {
            id: s.next_clip_id,
            start: new_start,
            ..s.timeline.semantic_clips[at]
        }.synced();
        StateView {
            timeline: s.timeline.with_semantic(copy).semantic_selected(s.next_clip_id),
            selection: SelectionView::nothing(),
            next_clip_id: next_number(s.next_clip_id),
            ..s
        }
    }
}

impl GlobalState {
    /// Removes the selected stretch. Says whether there was one.
    pub fn remove_selected_semantic_clip(&mut self) -> (done: bool)
        ensures
            done == old(self)@.timeline.selected_semantic() is Some,
            final(self)@ == match old(self)@.timeline.selected_semantic() {
                Some(id) => {
                    let s = old(self)@.saved(false);
                    StateView { timeline: s.timeline.without_semantic(id), ..s }
                },
                None => old(self)@,
            },
    {
        match self.timeline.selected_semantic() {
            Some(id) => {
                self.save_for_undo();
                self.timeline.drop_semantic(id);
                true
            },
            None => false,
        }
    }

    /// Copies a stretch. Says whether it is there.
    pub fn duplicate_semantic_clip_at(&mut self, clip_id: u64, new_start: Duration) -> (done: bool)
        ensures
            ({
                let clips = old(self)@.timeline.semantic_clips;
                let at = semantic_place(clips, clip_id);
                &&& done == (at < clips.len())
                &&& final(self)@ == if done {
                    old(self)@.semantic_duplicated(at, new_start@)
                } else {
                    old(self)@
                }
            }),
    {
        reveal(StateView::semantic_duplicated);
        let at = find_semantic(&self.timeline.semantic_clips, clip_id);
        if at >= self.timeline.semantic_clips.len() {
            return false;
        }
        let mut copy = self.timeline.semantic_clips[at].duplicate();
        self.save_for_undo();
        let id = take_id(&mut self.next_clip_id);
        copy.id = id;
        copy.start = new_start;
        sync_semantic_prompt_schema_fields(&mut copy);
        self.timeline.add_semantic(copy);
        self.timeline.selected_semantic_clip_id = Some(id);
        self.timeline.selected_layer_effect_clip_id = None;
        self.selection.clear();
        true
    }

    /// Copies a stretch behind it. Says whether it is there.
    pub fn duplicate_semantic_clip_after(&mut self, clip_id: u64) -> (done: bool)
        ensures
            ({
                let clips = old(self)@.timeline.semantic_clips;
                let at = semantic_place(clips, clip_id);
                &&& done == (at < clips.len())
                &&& final(self)@ == if done {
                    old(self)@.semantic_duplicated(
                        at,
                        least(clips[at].start + clips[at].duration, MAX_NANOS as int),
                    )
                } else {
                    old(self)@
                }
            }),
    {
        let at = find_semantic(&self.timeline.semantic_clips, clip_id);
        if at >= self.timeline.semantic_clips.len() {
            return false;
        }
        let c = &self.timeline.semantic_clips[at];
        let end = c.start.saturating_add(c.duration);
        self.duplicate_semantic_clip_at(clip_id, end)
    }
}

} // verus!
