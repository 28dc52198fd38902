//! What holds of the requests of marked stretches.
use crate::json::{JsonNumber, JsonView, MemberView};
use crate::json_edit::{
    keys_differ, lemma_place, lookup, member_place, merged, merged_members, number_at, object_at,
    overlay_shows, put, put_is_found, removed_is_not_found, text_at, without,
};
use crate::json_laws::{
    begins, distinct, edited_keys_differ, lemma_begins_put, lemma_begins_without, lemma_covered,
    lemma_found_at, lemma_found_distinct, lemma_merged_begins, lemma_merged_self, lemma_put_same,
    merged_keys_differ, merging_twice_is_once,
};
use crate::lists::{lemma_first, lemma_first_is};
use crate::removal::semantic_place;
use crate::semantic::{
    full_prompts, json_seconds, needs_fixed_size, normalized, prompt_key, shot_id, side,
    usual_schema, with_goal, with_image_size, with_own_fields, with_prompts, with_side,
    with_size, with_usual_side, with_usual_text, without_old_fields, SemanticEditView,
};
use crate::text::{lowered, trimmed};
use crate::tracks::{SemanticClipView, TimelineView};
use vstd::prelude::*;

verus! {

/// Whether a member was held by earlier requests only.
pub open spec fn is_old_key(key: Seq<char>) -> bool {
    key == "schema_version"@ || key == "timecode_start_ms"@ || key == "timecode_end_ms"@ || key
        == "timing"@ || key == "provider_prompts"@ || key == "provider_limits"@ || key == "meta"@
}

/// A text, or a usual one where it is none but white space.
pub open spec fn text_or_usual(text: Option<Seq<char>>, usual: Seq<char>) -> Seq<char> {
    match text {
        Some(t) => if trimmed(t).len() == 0 {
            usual
        } else {
            t
        },
        None => usual,
    }
}

/// The size with a usual side where one is missing.
pub open spec fn full_size(size: Seq<MemberView>) -> Seq<MemberView> {
    with_usual_side(with_usual_side(size, "width"@, 1280), "height"@, 720)
}

/// Whether a request asks a provider that makes videos of one size only.
pub open spec fn asks_fixed_size(o: Seq<MemberView>) -> bool {
    needs_fixed_size(
        lowered(trimmed(text_or_usual(text_at(o, "provider"@), "veo_3_1"@))),
        lowered(trimmed(text_or_usual(text_at(o, "asset_mode"@), "video"@))),
    )
}

/// What is under a key of a request that was brought up to date.
pub open spec fn value_up_to_date(o: Seq<MemberView>, c: SemanticClipView, key: Seq<char>) -> Option<
    JsonView,
> {
    if key == "shot_id"@ {
        Some(JsonView::Text(shot_id(c.id)))
    } else if key == "duration_sec"@ {
        Some(JsonView::Number(json_seconds(c.duration)))
    } else if is_old_key(key) {
        None
    } else if key == "asset_mode"@ {
        Some(JsonView::Text(text_or_usual(text_at(o, key), "video"@)))
    } else if key == "provider"@ {
        Some(JsonView::Text(text_or_usual(text_at(o, key), "veo_3_1"@)))
    } else if key == "semantic_goal"@ {
        Some(JsonView::Text(text_or_usual(Some(c.semantic_type), "content_support"@)))
    } else if key == "prompts"@ {
        Some(JsonView::Object(full_prompts(object_at(o, key), c.label)))
    } else if key == "image_options"@ && asks_fixed_size(o) {
        Some(JsonView::Object(full_size(object_at(o, key))))
    } else {
        lookup(o, key)
    }
}

proof fn lemma_words()
    ensures
        "shot_id"@.len() == 7 && "shot_id"@[0] == 's',
        "duration_sec"@.len() == 12,
        "asset_mode"@.len() == 10,
        "provider"@.len() == 8,
        "semantic_goal"@.len() == 13 && "semantic_goal"@[1] == 'e',
        "script_anchor"@.len() == 13 && "script_anchor"@[1] == 'c',
        "visual"@.len() == 6 && "visual"@[0] == 'v',
        "prompts"@.len() == 7 && "prompts"@[0] == 'p',
        "image_options"@.len() == 13 && "image_options"@[1] == 'm',
        "schema_version"@.len() == 14,
        "timecode_start_ms"@.len() == 17,
        "timecode_end_ms"@.len() == 15 && "timecode_end_ms"@[0] == 't',
        "timing"@.len() == 6 && "timing"@[0] == 't',
        "provider_prompts"@.len() == 16,
        "provider_limits"@.len() == 15 && "provider_limits"@[0] == 'p',
        "meta"@.len() == 4,
        "image_prompt"@.len() == 12 && "image_prompt"@[0] == 'i',
        "video_prompt"@.len() == 12 && "video_prompt"@[0] == 'v',
        "fallback_search_query"@.len() == 21,
        "width"@.len() == 5,
        "height"@.len() == 6,
{
    reveal_strlit("shot_id");
    reveal_strlit("duration_sec");
    reveal_strlit("asset_mode");
    reveal_strlit("provider");
    reveal_strlit("semantic_goal");
    reveal_strlit("script_anchor");
    reveal_strlit("visual");
    reveal_strlit("prompts");
    reveal_strlit("image_options");
    reveal_strlit("schema_version");
    reveal_strlit("timecode_start_ms");
    reveal_strlit("timecode_end_ms");
    reveal_strlit("timing");
    reveal_strlit("provider_prompts");
    reveal_strlit("provider_limits");
    reveal_strlit("meta");
    reveal_strlit("image_prompt");
    reveal_strlit("video_prompt");
    reveal_strlit("fallback_search_query");
    reveal_strlit("width");
    reveal_strlit("height");
}

/// The usual words are no white space and in lower case.
proof fn lemma_usual_words()
    ensures
        trimmed("video"@) == "video"@,
        lowered("video"@) == "video"@,
        "video"@.len() == 5,
        trimmed("veo_3_1"@) == "veo_3_1"@,
        "veo_3_1"@.len() == 7,
{
    reveal_strlit("video");
    reveal_strlit("veo_3_1");
    assert("video"@.len() == 5);
    assert("video"@[0] == 'v' && "video"@[1] == 'i' && "video"@[2] == 'd' && "video"@[3] == 'e'
        && "video"@[4] == 'o');
    assert(lowered("video"@) =~= "video"@);
    assert("veo_3_1"@[0] == 'v' && "veo_3_1"@[6] == '1');
}

proof fn lemma_put(o: Seq<MemberView>, key: Seq<char>, v: JsonView)
    requires
        keys_differ(o),
    ensures
        keys_differ(put(o, key, v)),
        lookup(put(o, key, v), key) == Some(v),
        forall|x: Seq<char>|
            x != key ==> #[trigger] lookup(put(o, key, v), x) == lookup(o, x),
{
    put_is_found(o, key, v, key);
    assert forall|x: Seq<char>| x != key implies #[trigger] lookup(put(o, key, v), x) == lookup(
        o,
        x,
    ) by {
        put_is_found(o, key, v, x);
    }
}

proof fn lemma_without(o: Seq<MemberView>, key: Seq<char>)
    requires
        keys_differ(o),
    ensures
        keys_differ(without(o, key)),
        lookup(without(o, key), key) is None,
        forall|x: Seq<char>|
            x != key ==> #[trigger] lookup(without(o, key), x) == lookup(o, x),
{
    removed_is_not_found(o, key, key);
    assert forall|x: Seq<char>| x != key implies #[trigger] lookup(without(o, key), x) == lookup(
        o,
        x,
    ) by {
        removed_is_not_found(o, key, x);
    }
}

/// Where nothing is under a key, there is nothing to remove.
proof fn lemma_without_none(o: Seq<MemberView>, key: Seq<char>)
    requires
        lookup(o, key) is None,
    ensures
        without(o, key) == o,
{
    lemma_place(o, key);
}

proof fn lemma_old_keys(o: Seq<MemberView>)
    requires
        keys_differ(o),
    ensures
        keys_differ(without_old_fields(o)),
        forall|x: Seq<char>|
            #[trigger] lookup(without_old_fields(o), x) == if is_old_key(x) {
                None
            } else {
                lookup(o, x)
            },
{
    lemma_words();
    lemma_without(o, "schema_version"@);
    let a = without(o, "schema_version"@);
    lemma_without(a, "timecode_start_ms"@);
    let b = without(a, "timecode_start_ms"@);
    lemma_without(b, "timecode_end_ms"@);
    let c = without(b, "timecode_end_ms"@);
    lemma_without(c, "timing"@);
    let d = without(c, "timing"@);
    lemma_without(d, "provider_prompts"@);
    let e = without(d, "provider_prompts"@);
    lemma_without(e, "provider_limits"@);
    let f = without(e, "provider_limits"@);
    lemma_without(f, "meta"@);
}

proof fn lemma_usual_text(o: Seq<MemberView>, key: Seq<char>, usual: Seq<char>)
    requires
        keys_differ(o),
    ensures
        keys_differ(with_usual_text(o, key, usual)),
        lookup(with_usual_text(o, key, usual), key) == Some(
            JsonView::Text(text_or_usual(text_at(o, key), usual)),
        ),
        forall|x: Seq<char>|
            x != key ==> #[trigger] lookup(with_usual_text(o, key, usual), x) == lookup(o, x),
{
    lemma_put(o, key, JsonView::Text(usual));
}

/// What a request holds that was brought up to date.
proof fn lemma_normalized(o: Seq<MemberView>, c: SemanticClipView)
    requires
        keys_differ(o),
    ensures
        keys_differ(normalized(o, c)),
        forall|x: Seq<char>|
            #[trigger] lookup(normalized(o, c), x) == value_up_to_date(o, c, x),
{
    reveal(normalized);
    lemma_words();
    lemma_put(o, "shot_id"@, JsonView::Text(shot_id(c.id)));
    let a = put(o, "shot_id"@, JsonView::Text(shot_id(c.id)));
    lemma_put(a, "duration_sec"@, JsonView::Number(json_seconds(c.duration)));
    let b = with_own_fields(o, c);
    lemma_old_keys(b);
    let d = without_old_fields(b);
    lemma_usual_text(d, "asset_mode"@, "video"@);
    let e = with_usual_text(d, "asset_mode"@, "video"@);
    lemma_usual_text(e, "provider"@, "veo_3_1"@);
    let f = with_usual_text(e, "provider"@, "veo_3_1"@);
    lemma_put(
        f,
        "semantic_goal"@,
        JsonView::Text(text_or_usual(Some(c.semantic_type), "content_support"@)),
    );
    let g = with_goal(f, c);
    let prompts = JsonView::Object(full_prompts(object_at(g, "prompts"@), c.label));
    lemma_put(g, "prompts"@, prompts);
    let h = with_prompts(g, c);
    let size = JsonView::Object(full_size(object_at(h, "image_options"@)));
    lemma_put(h, "image_options"@, size);
    assert(lookup(d, "asset_mode"@) == lookup(o, "asset_mode"@));
    assert(lookup(e, "provider"@) == lookup(o, "provider"@));
    assert(lookup(g, "prompts"@) == lookup(o, "prompts"@));
    assert(lookup(h, "image_options"@) == lookup(o, "image_options"@));
    assert(lookup(h, "asset_mode"@) == lookup(e, "asset_mode"@));
    assert(lookup(h, "provider"@) == lookup(f, "provider"@));
    let n = with_size(h);
    assert(normalized(o, c) == n);
    assert forall|x: Seq<char>| #[trigger] lookup(n, x) == value_up_to_date(o, c, x) by {
        if x != "image_options"@ {
            assert(lookup(n, x) == lookup(h, x));
        }
        if x != "image_options"@ && x != "prompts"@ {
            assert(lookup(h, x) == lookup(g, x));
            if x != "semantic_goal"@ {
                assert(lookup(g, x) == lookup(f, x));
                if x != "provider"@ {
                    assert(lookup(f, x) == lookup(e, x));
                    if x != "asset_mode"@ {
                        assert(lookup(e, x) == lookup(d, x));
                        if x != "duration_sec"@ {
                            assert(lookup(b, x) == lookup(a, x));
                        }
                    }
                }
            }
        }
    }
}

// ---------------------------------------------------------------------------
// Bringing a request up to date
// ---------------------------------------------------------------------------

/// The usual request of the stretch.
pub open spec fn usual_of(c: SemanticClipView) -> Seq<MemberView> {
    usual_schema(c.id, c.duration, c.semantic_type, c.label)
}

/// The members of the usual request, by their place.
proof fn lemma_usual(c: SemanticClipView)
    ensures
        ({
            let u = usual_of(c);
            &&& u.len() == 9
            &&& u[0].key == "shot_id"@ && u[0].value is Text
            &&& u[1].key == "asset_mode"@ && u[1].value == JsonView::Text("video"@)
            &&& u[2].key == "provider"@ && u[2].value == JsonView::Text("veo_3_1"@)
            &&& u[3].key == "semantic_goal"@ && u[3].value is Text
            &&& u[4].key == "script_anchor"@ && u[4].value is Text
            &&& u[5].key == "duration_sec"@ && u[5].value is Number
            &&& u[6].key == "visual"@
            &&& u[7].key == "prompts"@ && usual_prompts(u[7].value.members())
            &&& u[7].value is Object
            &&& u[8].key == "image_options"@ && usual_sides(u[8].value.members())
            &&& u[8].value is Object
            &&& distinct(JsonView::Object(u))
            &&& forall|i: int| 0 <= i < 9 ==> !is_old_key((#[trigger] u[i]).key)
        }),
{
    reveal(usual_schema);
    lemma_words();
    let u = usual_of(c);
    assert(keys_differ(u));
    lemma_visual();
    assert(u[6].value == crate::semantic::usual_visual());
    let p = u[7].value.members();
    assert(p.len() == 2);
    assert(keys_differ(p));
    lemma_flat(u[7].value);
    let q = u[8].value.members();
    assert(q.len() == 2);
    assert(keys_differ(q));
    lemma_flat(u[8].value);
    assert forall|i: int| 0 <= i < u.len() implies distinct((#[trigger] u[i]).value) by {
        if i == 6 {
        } else if i == 7 {
        } else if i == 8 {
        } else {
            assert(!(u[i].value is Object));
        }
    }
}

proof fn lemma_visual()
    ensures
        distinct(crate::semantic::usual_visual()),
{
    let v = crate::semantic::usual_visual();
    reveal_strlit("entities");
    reveal_strlit("visual_type");
    reveal_strlit("camera");
    reveal_strlit("style");
    reveal_strlit("lighting");
    reveal_strlit("negative_constraints");
    assert("entities"@.len() == 8 && "entities"@[0] == 'e');
    assert("visual_type"@.len() == 11);
    assert("camera"@.len() == 6);
    assert("style"@.len() == 5);
    assert("lighting"@.len() == 8 && "lighting"@[0] == 'l');
    assert("negative_constraints"@.len() == 20);
    assert(keys_differ(v.members()));
    lemma_flat(v);
}

/// An object that holds no other.
proof fn lemma_flat(v: JsonView)
    requires
        v is Object,
        keys_differ(v.members()),
        forall|i: int| 0 <= i < v.members().len() ==> !((#[trigger] v.members()[i]).value is Object),
    ensures
        distinct(v),
{
    let o = v.members();
    assert forall|i: int| 0 <= i < o.len() implies distinct((#[trigger] o[i]).value) by {
        assert(!(v.members()[i].value is Object));
    }
}

/// A prompt for pictures and one for videos.
pub open spec fn usual_prompts(p: Seq<MemberView>) -> bool {
    p.len() == 2 && p[0].key == "image_prompt"@ && p[0].value is Text && p[1].key
        == "video_prompt"@ && p[1].value is Text
}

/// The usual width and height.
pub open spec fn usual_sides(q: Seq<MemberView>) -> bool {
    q.len() == 2 && q[0] == (MemberView {
        key: "width"@,
        value: JsonView::Number(JsonNumber::Unsigned(1280)),
    }) && q[1] == (MemberView {
        key: "height"@,
        value: JsonView::Number(JsonNumber::Unsigned(720)),
    })
}

/// What full prompts hold.
proof fn lemma_prompts(q: Seq<MemberView>, label: Seq<char>)
    requires
        keys_differ(q),
    ensures
        ({
            let p = full_prompts(q, label);
            &&& keys_differ(p)
            &&& text_at(p, "image_prompt"@) == Some(text_or_usual(text_at(q, "image_prompt"@), label))
            &&& text_at(p, "video_prompt"@) == Some(text_or_usual(text_at(q, "video_prompt"@), label))
            &&& lookup(p, "fallback_search_query"@) is None
        }),
{
    lemma_words();
    lemma_usual_text(q, "image_prompt"@, label);
    let a = with_usual_text(q, "image_prompt"@, label);
    lemma_usual_text(a, "video_prompt"@, label);
    let b = with_usual_text(a, "video_prompt"@, label);
    lemma_without(b, "fallback_search_query"@);
    assert(lookup(a, "video_prompt"@) == lookup(q, "video_prompt"@));
    assert(lookup(b, "image_prompt"@) == lookup(a, "image_prompt"@));
}

/// Full prompts are full already, and hold the usual ones in their order.
proof fn lemma_prompts_stay(u: Seq<MemberView>, q: Seq<MemberView>, label: Seq<char>)
    requires
        usual_prompts(u),
        keys_differ(u),
        begins(u, q) || q.len() == 0,
    ensures
        full_prompts(full_prompts(q, label), label) == full_prompts(q, label),
        merged_members(u, full_prompts(q, label)) == full_prompts(q, label),
{
    lemma_words();
    lemma_prompts(q, label);
    let p = full_prompts(q, label);
    let image = text_or_usual(text_at(q, "image_prompt"@), label);
    let video = text_or_usual(text_at(q, "video_prompt"@), label);
    if trimmed(image).len() == 0 {
        lemma_put_same(p, "image_prompt"@, JsonView::Text(label));
    }
    assert(with_usual_text(p, "image_prompt"@, label) == p);
    if trimmed(video).len() == 0 {
        lemma_put_same(p, "video_prompt"@, JsonView::Text(label));
    }
    lemma_without_none(p, "fallback_search_query"@);
    let a = with_usual_text(q, "image_prompt"@, label);
    let b = with_usual_text(a, "video_prompt"@, label);
    if q.len() == 0 {
        lemma_place(q, "image_prompt"@);
        assert(a =~= seq![
            MemberView { key: "image_prompt"@, value: JsonView::Text(label) },
        ]);
        lemma_place(a, "video_prompt"@);
        assert(b =~= seq![
            MemberView { key: "image_prompt"@, value: JsonView::Text(label) },
            MemberView { key: "video_prompt"@, value: JsonView::Text(label) },
        ]);
        assert(begins(u, b));
    } else {
        lemma_begins_put(u, q, "image_prompt"@, JsonView::Text(label));
        lemma_begins_put(u, a, "video_prompt"@, JsonView::Text(label));
    }
    lemma_begins_without(u, b, "fallback_search_query"@);
    lemma_covered(u, p);
}

/// What a full size holds.
proof fn lemma_sides(q: Seq<MemberView>)
    requires
        keys_differ(q),
    ensures
        ({
            let p = full_size(q);
            &&& keys_differ(p)
            &&& side(number_at(p, "width"@)) == Some(
                match side(number_at(q, "width"@)) {
                    Some(n) => n,
                    None => 1280,
                },
            )
            &&& side(number_at(p, "height"@)) == Some(
                match side(number_at(q, "height"@)) {
                    Some(n) => n,
                    None => 720,
                },
            )
        }),
{
    lemma_words();
    let width = JsonView::Number(JsonNumber::Unsigned(1280));
    lemma_put(q, "width"@, width);
    let a = with_usual_side(q, "width"@, 1280);
    lemma_put(a, "height"@, JsonView::Number(JsonNumber::Unsigned(720)));
    assert(lookup(a, "height"@) == lookup(q, "height"@));
    let b = with_usual_side(a, "height"@, 720);
    assert(lookup(b, "width"@) == lookup(a, "width"@));
}

/// A full size is full already, and holds the usual sides in their order.
proof fn lemma_size_stays(u: Seq<MemberView>, q: Seq<MemberView>)
    requires
        usual_sides(u),
        keys_differ(u),
        begins(u, q) || q.len() == 0,
    ensures
        full_size(full_size(q)) == full_size(q),
        merged_members(u, full_size(q)) == full_size(q),
{
    lemma_words();
    lemma_sides(q);
    let p = full_size(q);
    let width = JsonView::Number(JsonNumber::Unsigned(1280));
    let height = JsonView::Number(JsonNumber::Unsigned(720));
    let a = with_usual_side(q, "width"@, 1280);
    if q.len() == 0 {
        lemma_place(q, "width"@);
        assert(a =~= seq![MemberView { key: "width"@, value: width }]);
        lemma_place(a, "height"@);
        assert(p =~= seq![
            MemberView { key: "width"@, value: width },
            MemberView { key: "height"@, value: height },
        ]);
        assert(begins(u, p));
    } else {
        lemma_begins_put(u, q, "width"@, width);
        lemma_begins_put(u, a, "height"@, height);
    }
    lemma_covered(u, p);
}

proof fn lemma_normalized_begins(u: Seq<MemberView>, o: Seq<MemberView>, c: SemanticClipView)
    requires
        begins(u, o),
        forall|i: int| 0 <= i < u.len() ==> !is_old_key((#[trigger] u[i]).key),
    ensures
        begins(u, normalized(o, c)),
{
    reveal(normalized);
    lemma_begins_put(u, o, "shot_id"@, JsonView::Text(shot_id(c.id)));
    let a = put(o, "shot_id"@, JsonView::Text(shot_id(c.id)));
    lemma_begins_put(u, a, "duration_sec"@, JsonView::Number(json_seconds(c.duration)));
    let b = with_own_fields(o, c);
    lemma_begins_without(u, b, "schema_version"@);
    let b1 = without(b, "schema_version"@);
    lemma_begins_without(u, b1, "timecode_start_ms"@);
    let b2 = without(b1, "timecode_start_ms"@);
    lemma_begins_without(u, b2, "timecode_end_ms"@);
    let b3 = without(b2, "timecode_end_ms"@);
    lemma_begins_without(u, b3, "timing"@);
    let b4 = without(b3, "timing"@);
    lemma_begins_without(u, b4, "provider_prompts"@);
    let b5 = without(b4, "provider_prompts"@);
    lemma_begins_without(u, b5, "provider_limits"@);
    let b6 = without(b5, "provider_limits"@);
    lemma_begins_without(u, b6, "meta"@);
    let d = without_old_fields(b);
    lemma_begins_put(u, d, "asset_mode"@, JsonView::Text("video"@));
    let e = with_usual_text(d, "asset_mode"@, "video"@);
    lemma_begins_put(u, e, "provider"@, JsonView::Text("veo_3_1"@));
    let f = with_usual_text(e, "provider"@, "veo_3_1"@);
    lemma_begins_put(
        u,
        f,
        "semantic_goal"@,
        JsonView::Text(text_or_usual(Some(c.semantic_type), "content_support"@)),
    );
    let g = with_goal(f, c);
    let prompts = JsonView::Object(full_prompts(object_at(g, "prompts"@), c.label));
    lemma_begins_put(u, g, "prompts"@, prompts);
    let h = with_prompts(g, c);
    let size = JsonView::Object(full_size(object_at(h, "image_options"@)));
    lemma_begins_put(u, h, "image_options"@, size);
}

/// A request that is up to date does not change when it is brought up to date.
proof fn lemma_normalized_stays(n: Seq<MemberView>, c: SemanticClipView)
    requires
        keys_differ(n),
        forall|x: Seq<char>| #[trigger] lookup(n, x) == value_up_to_date(n, c, x),
    ensures
        normalized(n, c) == n,
{
    reveal(normalized);
    lemma_words();
    lemma_usual_words();
    assert(lookup(n, "shot_id"@) == Some(JsonView::Text(shot_id(c.id))));
    lemma_put_same(n, "shot_id"@, JsonView::Text(shot_id(c.id)));
    assert(lookup(n, "duration_sec"@) == Some(JsonView::Number(json_seconds(c.duration))));
    lemma_put_same(n, "duration_sec"@, JsonView::Number(json_seconds(c.duration)));
    assert(with_own_fields(n, c) == n);
    assert(lookup(n, "schema_version"@) is None);
    assert(lookup(n, "timecode_start_ms"@) is None);
    assert(lookup(n, "timecode_end_ms"@) is None);
    assert(lookup(n, "timing"@) is None);
    assert(lookup(n, "provider_prompts"@) is None);
    assert(lookup(n, "provider_limits"@) is None);
    assert(lookup(n, "meta"@) is None);
    lemma_without_none(n, "schema_version"@);
    lemma_without_none(n, "timecode_start_ms"@);
    lemma_without_none(n, "timecode_end_ms"@);
    lemma_without_none(n, "timing"@);
    lemma_without_none(n, "provider_prompts"@);
    lemma_without_none(n, "provider_limits"@);
    lemma_without_none(n, "meta"@);
    assert(without_old_fields(n) == n);
    assert(lookup(n, "asset_mode"@) == value_up_to_date(n, c, "asset_mode"@));
    assert(with_usual_text(n, "asset_mode"@, "video"@) == n);
    assert(lookup(n, "provider"@) == value_up_to_date(n, c, "provider"@));
    assert(with_usual_text(n, "provider"@, "veo_3_1"@) == n);
    let goal = JsonView::Text(text_or_usual(Some(c.semantic_type), "content_support"@));
    assert(lookup(n, "semantic_goal"@) == Some(goal));
    lemma_put_same(n, "semantic_goal"@, goal);
    assert(with_goal(n, c) == n);
    let prompts = JsonView::Object(full_prompts(object_at(n, "prompts"@), c.label));
    assert(lookup(n, "prompts"@) == Some(prompts));
    lemma_put_same(n, "prompts"@, prompts);
    assert(with_prompts(n, c) == n);
    let size = JsonView::Object(full_size(object_at(n, "image_options"@)));
    if asks_fixed_size(n) {
        assert(lookup(n, "image_options"@) == Some(size));
        lemma_put_same(n, "image_options"@, size);
    }
    assert(with_size(n) == n);
}

/// The request of a stretch laid over the usual one, and brought up to date.
proof fn lemma_synced(c: SemanticClipView)
    requires
        c.prompt_schema is Object,
        distinct(c.prompt_schema),
    ensures
        ({
            let m = merged_members(usual_of(c), c.prompt_schema.members());
            &&& keys_differ(m)
            &&& begins(usual_of(c), m)
            &&& c.synced() == (SemanticClipView {
                prompt_schema: JsonView::Object(normalized(m, c)),
                ..c
            })
        }),
{
    reveal(SemanticClipView::synced);
    lemma_usual(c);
    lemma_merged_begins(usual_of(c), c.prompt_schema.members());
}

/// An up-to-date request is an object that names its stretch and says how long it is and
/// what it is for; the stretch itself stays as it was.
pub proof fn synced_schema_tells_the_stretch(c: SemanticClipView)
    requires
        c.prompt_schema matches JsonView::Object(o) ==> keys_differ(o),
    ensures
        c.synced().prompt_schema matches JsonView::Object(o) && {
            &&& lookup(o, "shot_id"@) == Some(JsonView::Text(shot_id(c.id)))
            &&& lookup(o, "duration_sec"@) == Some(JsonView::Number(json_seconds(c.duration)))
            &&& c.prompt_schema is Object && trimmed(c.semantic_type).len() > 0 ==> text_at(
                o,
                "semantic_goal"@,
            ) == Some(c.semantic_type)
        },
        c.synced() == (SemanticClipView { prompt_schema: c.synced().prompt_schema, ..c }),
{
    reveal(SemanticClipView::synced);
    lemma_words();
    lemma_usual(c);
    let u = usual_of(c);
    if c.prompt_schema is Object {
        let m = merged_members(u, c.prompt_schema.members());
        lemma_merged_begins(u, c.prompt_schema.members());
        lemma_normalized(m, c);
        let n = normalized(m, c);
        assert(lookup(n, "shot_id"@) == value_up_to_date(m, c, "shot_id"@));
        assert(lookup(n, "duration_sec"@) == value_up_to_date(m, c, "duration_sec"@));
        assert(lookup(n, "semantic_goal"@) == value_up_to_date(m, c, "semantic_goal"@));
    } else {
        reveal(usual_schema);
        lemma_found_at(u, 0);
        lemma_found_at(u, 5);
    }
}

/// What was laid over the usual request under the key of an object: an object that begins with
/// the usual one, or none.
proof fn lemma_laid_over(c: SemanticClipView, i: int)
    requires
        distinct(c.prompt_schema),
        c.prompt_schema is Object,
        6 <= i <= 8,
        usual_of(c)[i].value is Object,
    ensures
        ({
            let u = usual_of(c)[i];
            let m = merged_members(usual_of(c), c.prompt_schema.members());
            let q = object_at(m, u.key);
            &&& begins(u.value.members(), q) || q.len() == 0
            &&& keys_differ(q)
            &&& keys_differ(u.value.members())
            &&& lookup(m, u.key) is Some
            &&& merged(u.value, lookup(m, u.key)->0) == lookup(m, u.key)->0
        }),
{
    lemma_usual(c);
    let all = usual_of(c);
    let own = c.prompt_schema.members();
    let u = all[i];
    assert(distinct(u.value));
    lemma_found_at(all, i);
    overlay_shows(all, own, u.key);
    lemma_place(own, u.key);
    let j = member_place(own, u.key);
    if j < own.len() {
        assert(distinct(own[j].value));
        merging_twice_is_once(u.value, own[j].value);
        if own[j].value is Object {
            lemma_merged_begins(u.value.members(), own[j].value.members());
        }
    } else {
        lemma_merged_self(u.value);
    }
}

/// Bringing a request up to date twice is as bringing it up to date once.
pub proof fn syncing_twice_is_once(c: SemanticClipView)
    requires
        c.prompt_schema is Object,
        distinct(c.prompt_schema),
    ensures
        c.synced().synced() == c.synced(),
{
    lemma_words();
    lemma_usual_words();
    lemma_usual(c);
    lemma_synced(c);
    let u = usual_of(c);
    let m = merged_members(u, c.prompt_schema.members());
    let n = normalized(m, c);
    lemma_normalized(m, c);
    lemma_normalized_begins(u, m, c);
    lemma_laid_over(c, 7);
    lemma_laid_over(c, 8);
    let q = object_at(m, "prompts"@);
    lemma_prompts_stay(u[7].value.members(), q, c.label);
    let z = object_at(m, "image_options"@);
    lemma_size_stays(u[8].value.members(), z);
    assert forall|i: int| 0 <= i < u.len() implies merged(u[i].value, (#[trigger] n[i]).value)
        == n[i].value by {
        lemma_found_at(n, i);
        assert(n[i].key == u[i].key);
        assert(lookup(n, n[i].key) == value_up_to_date(m, c, n[i].key));
        if i == 6 {
            if u[6].value is Object {
                lemma_laid_over(c, 6);
            }
        }
    }
    lemma_covered(u, n);
    assert(lookup(n, "asset_mode"@) == value_up_to_date(m, c, "asset_mode"@));
    assert(lookup(n, "provider"@) == value_up_to_date(m, c, "provider"@));
    assert(lookup(n, "prompts"@) == value_up_to_date(m, c, "prompts"@));
    assert(lookup(n, "image_options"@) == value_up_to_date(m, c, "image_options"@));
    assert(asks_fixed_size(n) == asks_fixed_size(m));
    assert forall|x: Seq<char>| #[trigger] lookup(n, x) == value_up_to_date(n, c, x) by {
        assert(lookup(n, x) == value_up_to_date(m, c, x));
    }
    lemma_normalized_stays(n, c);
    let d = c.synced();
    assert(usual_of(d) == u);
    reveal(SemanticClipView::synced);
    reveal(normalized);
    assert(merged(d.first_schema(), d.prompt_schema) == JsonView::Object(n));
    assert(normalized(n, d) == normalized(n, c));
}

/// A request that was brought up to date tells its stretch, asks a provider for a kind of media,
/// and holds nothing of what earlier requests held. Nothing but the request changes.
pub proof fn synced_request_is_lean(c: SemanticClipView, old_key: Seq<char>)
    requires
        c.prompt_schema is Object,
        distinct(c.prompt_schema),
        is_old_key(old_key),
    ensures
        c.synced() == (SemanticClipView { prompt_schema: c.synced().prompt_schema, ..c }),
        c.synced().prompt_schema matches JsonView::Object(o) && {
            &&& keys_differ(o)
            &&& text_at(o, "shot_id"@) == Some(shot_id(c.id))
            &&& lookup(o, "duration_sec"@) == Some(JsonView::Number(json_seconds(c.duration)))
            &&& lookup(o, old_key) is None
            &&& lookup(object_at(o, "prompts"@), "fallback_search_query"@) is None
            &&& text_at(o, "asset_mode"@) matches Some(t) && trimmed(t).len() > 0
            &&& text_at(o, "provider"@) matches Some(t) && trimmed(t).len() > 0
        },
{
    lemma_words();
    lemma_usual_words();
    lemma_usual(c);
    lemma_synced(c);
    let m = merged_members(usual_of(c), c.prompt_schema.members());
    let n = normalized(m, c);
    lemma_normalized(m, c);
    lemma_laid_over(c, 7);
    lemma_prompts(object_at(m, "prompts"@), c.label);
    assert(lookup(n, "shot_id"@) == value_up_to_date(m, c, "shot_id"@));
    assert(lookup(n, "duration_sec"@) == value_up_to_date(m, c, "duration_sec"@));
    assert(lookup(n, old_key) == value_up_to_date(m, c, old_key));
    assert(lookup(n, "prompts"@) == value_up_to_date(m, c, "prompts"@));
    assert(lookup(n, "asset_mode"@) == value_up_to_date(m, c, "asset_mode"@));
    assert(lookup(n, "provider"@) == value_up_to_date(m, c, "provider"@));
}

// ---------------------------------------------------------------------------
// Reading back what was set
// ---------------------------------------------------------------------------

proof fn lemma_usual_text_distinct(o: Seq<MemberView>, key: Seq<char>, usual: Seq<char>)
    requires
        distinct(JsonView::Object(o)),
    ensures
        distinct(JsonView::Object(with_usual_text(o, key, usual))),
{
    edited_keys_differ(o, key, JsonView::Text(usual));
}

proof fn lemma_usual_side_distinct(o: Seq<MemberView>, key: Seq<char>, usual: u64)
    requires
        distinct(JsonView::Object(o)),
    ensures
        distinct(JsonView::Object(with_usual_side(o, key, usual))),
{
    edited_keys_differ(o, key, JsonView::Number(JsonNumber::Unsigned(usual)));
}

/// A request keeps its keys different when it is brought up to date.
pub proof fn synced_keys_differ(c: SemanticClipView)
    requires
        distinct(c.prompt_schema),
    ensures
        distinct(c.synced().prompt_schema),
        c.synced().prompt_schema is Object,
{
    reveal(SemanticClipView::synced);
    lemma_usual(c);
    let u = usual_of(c);
    if c.prompt_schema is Object {
        let m = merged_members(u, c.prompt_schema.members());
        merged_keys_differ(c.first_schema(), c.prompt_schema);
        assert(distinct(JsonView::Object(m)));
        lemma_normalized(m, c);
        let n = normalized(m, c);
        let q = object_at(m, "prompts"@);
        lemma_found_distinct(m, "prompts"@);
        lemma_usual_text_distinct(q, "image_prompt"@, c.label);
        let q1 = with_usual_text(q, "image_prompt"@, c.label);
        lemma_usual_text_distinct(q1, "video_prompt"@, c.label);
        let q2 = with_usual_text(q1, "video_prompt"@, c.label);
        edited_keys_differ(q2, "fallback_search_query"@, JsonView::Null);
        let z = object_at(m, "image_options"@);
        lemma_found_distinct(m, "image_options"@);
        lemma_usual_side_distinct(z, "width"@, 1280);
        lemma_usual_side_distinct(with_usual_side(z, "width"@, 1280), "height"@, 720);
        assert forall|i: int| 0 <= i < n.len() implies distinct((#[trigger] n[i]).value) by {
            lemma_found_at(n, i);
            assert(lookup(n, n[i].key) == value_up_to_date(m, c, n[i].key));
            lemma_found_distinct(m, n[i].key);
        }
    }
}

/// A request keeps its keys different with every change of a stretch.
pub proof fn changed_request_keys_differ(c: SemanticClipView, e: SemanticEditView)
    requires
        distinct(c.prompt_schema),
    ensures
        distinct(c.edited(e).prompt_schema),
{
    reveal(SemanticClipView::edited);
    let o = c.prompt_schema.members();
    assert(distinct(JsonView::Object(o)));
    match e {
        SemanticEditView::AssetMode(t) => {
            edited_keys_differ(
                o,
                "asset_mode"@,
                JsonView::Text(crate::semantic::mode_named(t)),
            );
        },
        SemanticEditView::Model(t) => {
            let model = JsonView::Text(crate::semantic::model_name(t));
            edited_keys_differ(o, "provider"@, model);
            let a = put(o, "provider"@, model);
            edited_keys_differ(a, "asset_mode"@, JsonView::Text("image"@));
            edited_keys_differ(a, "asset_mode"@, JsonView::Text("video"@));
        },
        SemanticEditView::Prompt(t) => {
            let key = prompt_key(c.asset_mode());
            lemma_found_distinct(o, "prompts"@);
            let p = object_at(o, "prompts"@);
            edited_keys_differ(p, key, JsonView::Text(t));
            let q = put(p, key, JsonView::Text(t));
            edited_keys_differ(q, "fallback_search_query"@, JsonView::Null);
            edited_keys_differ(
                o,
                "prompts"@,
                JsonView::Object(without(q, "fallback_search_query"@)),
            );
        },
        SemanticEditView::ImageSize { width, height } => {
            lemma_found_distinct(o, "image_options"@);
            let p = object_at(o, "image_options"@);
            lemma_side_distinct(p, "width"@, width);
            let q = with_side(p, "width"@, width);
            lemma_side_distinct(q, "height"@, height);
            let size = JsonView::Object(with_side(q, "height"@, height));
            edited_keys_differ(o, "image_options"@, size);
            edited_keys_differ(put(o, "image_options"@, size), "image_options"@, size);
        },
        _ => {},
    }
    synced_keys_differ(c.changed(e));
}

proof fn lemma_side_distinct(o: Seq<MemberView>, key: Seq<char>, n: Option<u32>)
    requires
        distinct(JsonView::Object(o)),
    ensures
        distinct(JsonView::Object(with_side(o, key, n))),
{
    match n {
        Some(n) => {
            edited_keys_differ(o, key, JsonView::Number(JsonNumber::Unsigned(n as u64)));
        },
        None => {
            edited_keys_differ(o, key, JsonView::Null);
        },
    }
}

/// A change of the selected stretch changes that stretch, and it stays selected.
proof fn lemma_selected_edit(t: TimelineView, e: SemanticEditView)
    requires
        t.the_selected_semantic() is Some,
    ensures
        t.with_selected_semantic_edit(e).the_selected_semantic() == Some(
            t.the_selected_semantic()->0.edited(e),
        ),
{
    reveal(TimelineView::with_semantic_edit);
    reveal(SemanticClipView::edited);
    reveal(SemanticClipView::synced);
    let id = t.selected_semantic_clip_id->0;
    let clips = t.semantic_clips;
    let at = semantic_place(clips, id);
    let p = |c: SemanticClipView| c.id == id;
    lemma_first(clips, p);
    let now = clips.update(at, clips[at].edited(e));
    assert(now[at].id == clips[at].id);
    assert forall|i: int| 0 <= i < at implies !p(#[trigger] now[i]) by {
        assert(!p(clips[i]));
    }
    lemma_first_is(now, p, at);
}

/// The kind of media that a request asks for, as it is after the request was brought up to date.
proof fn lemma_mode_stays(c: SemanticClipView)
    requires
        c.prompt_schema is Object,
        distinct(c.prompt_schema),
    ensures
        c.synced().asset_mode() == c.asset_mode(),
{
    lemma_words();
    lemma_usual_words();
    lemma_usual(c);
    lemma_synced(c);
    let u = usual_of(c);
    let own = c.prompt_schema.members();
    let m = merged_members(u, own);
    lemma_normalized(m, c);
    lemma_found_at(u, 1);
    overlay_shows(u, own, "asset_mode"@);
    assert(lookup(normalized(m, c), "asset_mode"@) == value_up_to_date(m, c, "asset_mode"@));
    assert(trimmed("video"@).len() > 0);
}

/// A prompt that was set for the selected stretch is the one that is read back, without white
/// space around it. It stands for the kind of media that is asked for, which stays as it was, and
/// a prompt for the other kind is kept.
pub proof fn set_prompt_is_read_back(t: TimelineView, text: Seq<char>)
    requires
        t.the_selected_semantic() matches Some(c) && distinct(c.prompt_schema),
        trimmed(text).len() > 0,
    ensures
        ({
            let c = t.the_selected_semantic()->0;
            let key = prompt_key(c.asset_mode());
            let other = if key == "image_prompt"@ {
                "video_prompt"@
            } else {
                "image_prompt"@
            };
            let before = object_at(c.prompt_schema.members(), "prompts"@);
            t.with_selected_semantic_edit(
                SemanticEditView::Prompt(text),
            ).the_selected_semantic() matches Some(d) && {
                let after = object_at(d.prompt_schema.members(), "prompts"@);
                &&& d.prompt() == Some(trimmed(text))
                &&& d.asset_mode() == c.asset_mode()
                &&& text_at(after, key) == Some(text)
                &&& match text_at(before, other) {
                    Some(b) => trimmed(b).len() > 0 ==> text_at(after, other) == Some(b),
                    None => true,
                }
            }
        }),
{
    let e = SemanticEditView::Prompt(text);
    lemma_selected_edit(t, e);
    let c = t.the_selected_semantic()->0;
    reveal(SemanticClipView::edited);
    lemma_words();
    let key = prompt_key(c.asset_mode());
    let other = if key == "image_prompt"@ {
        "video_prompt"@
    } else {
        "image_prompt"@
    };
    let o = c.prompt_schema.members();
    assert(distinct(JsonView::Object(o)));
    let b = c.changed(e);
    let before = object_at(o, "prompts"@);
    lemma_found_distinct(o, "prompts"@);
    lemma_put(before, key, JsonView::Text(text));
    let p1 = put(before, key, JsonView::Text(text));
    lemma_without(p1, "fallback_search_query"@);
    let p = without(p1, "fallback_search_query"@);
    edited_keys_differ(before, key, JsonView::Text(text));
    edited_keys_differ(p1, "fallback_search_query"@, JsonView::Null);
    edited_keys_differ(o, "prompts"@, JsonView::Object(p));
    lemma_put(o, "prompts"@, JsonView::Object(p));
    let own = b.prompt_schema.members();
    assert(lookup(own, "asset_mode"@) == lookup(o, "asset_mode"@));
    assert(b.asset_mode() == c.asset_mode());
    lemma_mode_stays(b);
    lemma_usual(b);
    lemma_synced(b);
    let u = usual_of(b);
    let m = merged_members(u, own);
    lemma_normalized(m, b);
    lemma_laid_over(b, 7);
    lemma_found_at(u, 7);
    overlay_shows(u, own, "prompts"@);
    let q = object_at(m, "prompts"@);
    assert(q == merged_members(u[7].value.members(), p));
    overlay_shows(u[7].value.members(), p, key);
    overlay_shows(u[7].value.members(), p, other);
    lemma_found_at(u[7].value.members(), 0);
    lemma_found_at(u[7].value.members(), 1);
    lemma_prompts(q, b.label);
    assert(lookup(normalized(m, b), "prompts"@) == value_up_to_date(m, b, "prompts"@));
    assert(lookup(p, key) == Some(JsonView::Text(text)));
    assert(lookup(p, other) == lookup(before, other));
}

/// A side of the picture that was set for the selected stretch is read back, and a side that was
/// left out is the usual one.
pub proof fn set_size_is_read_back(t: TimelineView, width: Option<u32>, height: Option<u32>)
    requires
        t.the_selected_semantic() matches Some(c) && distinct(c.prompt_schema),
        width matches Some(n) ==> n > 0,
        height matches Some(n) ==> n > 0,
    ensures
        t.with_selected_semantic_edit(
            SemanticEditView::ImageSize { width, height },
        ).the_selected_semantic() matches Some(d) && {
            &&& d.image_side("width"@) == Some(
                match width {
                    Some(n) => n,
                    None => 1280,
                },
            )
            &&& d.image_side("height"@) == Some(
                match height {
                    Some(n) => n,
                    None => 720,
                },
            )
        },
{
    let e = SemanticEditView::ImageSize { width, height };
    lemma_selected_edit(t, e);
    let c = t.the_selected_semantic()->0;
    reveal(SemanticClipView::edited);
    lemma_words();
    let o = c.prompt_schema.members();
    assert(distinct(JsonView::Object(o)));
    let b = c.changed(e);
    lemma_found_distinct(o, "image_options"@);
    let p0 = object_at(o, "image_options"@);
    lemma_side(p0, "width"@, width);
    lemma_side_distinct(p0, "width"@, width);
    let p1 = with_side(p0, "width"@, width);
    lemma_side(p1, "height"@, height);
    lemma_side_distinct(p1, "height"@, height);
    let p = with_side(p1, "height"@, height);
    edited_keys_differ(o, "image_options"@, JsonView::Object(p));
    lemma_put(o, "image_options"@, JsonView::Object(p));
    lemma_without(o, "image_options"@);
    assert(lookup(p, "width"@) == lookup(p1, "width"@));
    if p.len() == 0 {
        assert(lookup(p, "width"@) is None);
        assert(lookup(p, "height"@) is None);
    }
    let own = b.prompt_schema.members();
    assert(own == with_image_size(o, width, height));
    lemma_usual(b);
    lemma_synced(b);
    let u = usual_of(b);
    let m = merged_members(u, own);
    lemma_normalized(m, b);
    lemma_laid_over(b, 8);
    lemma_found_at(u, 8);
    overlay_shows(u, own, "image_options"@);
    let sides = u[8].value.members();
    lemma_found_at(sides, 0);
    lemma_found_at(sides, 1);
    overlay_shows(sides, p, "width"@);
    overlay_shows(sides, p, "height"@);
    let q = object_at(m, "image_options"@);
    lemma_sides(q);
    assert(lookup(normalized(m, b), "image_options"@) == value_up_to_date(m, b, "image_options"@));
}

/// What is under the key of a side that was set or left out.
proof fn lemma_side(o: Seq<MemberView>, key: Seq<char>, n: Option<u32>)
    requires
        keys_differ(o),
    ensures
        keys_differ(with_side(o, key, n)),
        lookup(with_side(o, key, n), key) == match n {
            Some(n) => Some(JsonView::Number(JsonNumber::Unsigned(n as u64))),
            None => None,
        },
        forall|x: Seq<char>|
            x != key ==> #[trigger] lookup(with_side(o, key, n), x) == lookup(o, x),
{
    match n {
        Some(n) => {
            lemma_put(o, key, JsonView::Number(JsonNumber::Unsigned(n as u64)));
        },
        None => {
            lemma_without(o, key);
        },
    }
}

} // verus!
