use vstd::prelude::*;
use crate::api_error::{api_error_is, field_details, ApiError};
use crate::config::{opt_str_view, opt_view};
use crate::json::{
    empty_members, json_model, json_u64, pairs_insert, put_member, u64_field, u64_member, Json, JsonV,
};
use crate::model::SourceRecord;
use crate::source_roots::{extension_of, path_extension};
use crate::text::{digit_char, digit_char_exec, trim_end_char, trim_end_char_exec, append_str, ascii_lowercase, ascii_lowercase_chars, chars_eq, chars_of, decimal, decimal_chars, append_chars, string_of};

verus! {

/// The length of a video segment, in milliseconds.
pub const VIDEO_SEGMENT_WINDOW_MS: u64 = 8_000;

/// The overlap of consecutive video segments, in milliseconds.
pub const VIDEO_SEGMENT_OVERLAP_MS: u64 = 2_000;

/// The lower-cased extension of a file name, if it has one.
pub open spec fn name_extension(filename: Option<Seq<char>>) -> Option<Seq<char>> {
    match filename {
        Some(n) => match path_extension(n) {
            Some(e) => Some(ascii_lowercase(e)),
            None => None,
        },
        None => None,
    }
}

fn name_extension_of(filename: Option<&str>) -> (r: Option<String>)
    ensures
        opt_view(r) == name_extension(opt_str_view(filename)),
{
    match filename {
        Some(n) => match extension_of(n) {
            Some(e) => Some(string_of(&ascii_lowercase_chars(&chars_of(e.as_str())))),
            None => None,
        },
        None => None,
    }
}

/// The image extensions that query uploads may have.
pub open spec fn query_image_extension(e: Seq<char>) -> bool {
    e == "png"@ || e == "jpg"@ || e == "jpeg"@ || e == "webp"@ || e == "bmp"@ || e == "gif"@
}

/// The video extensions that query uploads may have.
pub open spec fn query_video_extension(e: Seq<char>) -> bool {
    e == "mp4"@ || e == "mov"@ || e == "m4v"@
}

/// The document extensions that query uploads may have.
pub open spec fn query_document_extension(e: Seq<char>) -> bool {
    e == "pdf"@
}

/// Whether a query image may have this extension.
pub fn is_supported_query_image_extension(extension: &str) -> (r: bool)
    ensures
        r == query_image_extension(extension@),
{
    let e = chars_of(extension);
    chars_eq(&e, &chars_of("png")) || chars_eq(&e, &chars_of("jpg")) || chars_eq(&e, &chars_of("jpeg")) || chars_eq(
        &e,
        &chars_of("webp"),
    ) || chars_eq(&e, &chars_of("bmp")) || chars_eq(&e, &chars_of("gif"))
}

/// Whether a query video may have this extension.
pub fn is_supported_query_video_extension(extension: &str) -> (r: bool)
    ensures
        r == query_video_extension(extension@),
{
    let e = chars_of(extension);
    chars_eq(&e, &chars_of("mp4")) || chars_eq(&e, &chars_of("mov")) || chars_eq(&e, &chars_of("m4v"))
}

/// Whether a query document may have this extension.
pub fn is_supported_query_document_extension(extension: &str) -> (r: bool)
    ensures
        r == query_document_extension(extension@),
{
    chars_eq(&chars_of(extension), &chars_of("pdf"))
}

/// The extension under which a query image is stored: the upload's own supported
/// extension, else the one that its content type implies.
pub open spec fn image_extension_for(filename: Option<Seq<char>>, content_type: Seq<char>) -> Option<Seq<char>> {
    match name_extension(filename) {
        Some(e) if query_image_extension(e) => Some(e),
        _ => if content_type == "image/png"@ {
            Some("png"@)
        } else if content_type == "image/jpeg"@ {
            Some("jpg"@)
        } else if content_type == "image/webp"@ {
            Some("webp"@)
        } else if content_type == "image/bmp"@ {
            Some("bmp"@)
        } else if content_type == "image/gif"@ {
            Some("gif"@)
        } else {
            None
        },
    }
}

/// The extension under which a query image is stored (see `image_extension_for`).
pub fn infer_query_image_extension(filename: Option<&str>, content_type: &str) -> (r: Option<String>)
    ensures
        opt_view(r) == image_extension_for(opt_str_view(filename), content_type@),
{
    match name_extension_of(filename) {
        Some(e) => {
            if is_supported_query_image_extension(e.as_str()) {
                return Some(e);
            }
        },
        None => {},
    }
    let c = chars_of(content_type);
    if chars_eq(&c, &chars_of("image/png")) {
        Some("png".to_owned())
    } else if chars_eq(&c, &chars_of("image/jpeg")) {
        Some("jpg".to_owned())
    } else if chars_eq(&c, &chars_of("image/webp")) {
        Some("webp".to_owned())
    } else if chars_eq(&c, &chars_of("image/bmp")) {
        Some("bmp".to_owned())
    } else if chars_eq(&c, &chars_of("image/gif")) {
        Some("gif".to_owned())
    } else {
        None
    }
}

/// The extension under which a query video is stored: the upload's own supported
/// extension, else `mp4` for MP4 and QuickTime content and `m4v` for M4V content.
pub open spec fn video_extension_for(filename: Option<Seq<char>>, content_type: Seq<char>) -> Option<Seq<char>> {
    match name_extension(filename) {
        Some(e) if query_video_extension(e) => Some(e),
        _ => if content_type == "video/mp4"@ || content_type == "video/quicktime"@ {
            Some("mp4"@)
        } else if content_type == "video/x-m4v"@ {
            Some("m4v"@)
        } else {
            None
        },
    }
}

/// The extension under which a query video is stored (see `video_extension_for`).
pub fn infer_query_video_extension(filename: Option<&str>, content_type: &str) -> (r: Option<String>)
    ensures
        opt_view(r) == video_extension_for(opt_str_view(filename), content_type@),
{
    match name_extension_of(filename) {
        Some(e) => {
            if is_supported_query_video_extension(e.as_str()) {
                return Some(e);
            }
        },
        None => {},
    }
    let c = chars_of(content_type);
    if chars_eq(&c, &chars_of("video/mp4")) || chars_eq(&c, &chars_of("video/quicktime")) {
        Some("mp4".to_owned())
    } else if chars_eq(&c, &chars_of("video/x-m4v")) {
        Some("m4v".to_owned())
    } else {
        None
    }
}

/// The extension under which a query document is stored: the upload's own `pdf`
/// extension, else `pdf` for PDF content.
pub open spec fn document_extension_for(filename: Option<Seq<char>>, content_type: Seq<char>) -> Option<Seq<char>> {
    match name_extension(filename) {
        Some(e) if query_document_extension(e) => Some(e),
        _ => if content_type == "application/pdf"@ { Some("pdf"@) } else { None },
    }
}

/// The extension under which a query document is stored (see `document_extension_for`).
pub fn infer_query_document_extension(filename: Option<&str>, content_type: &str) -> (r: Option<String>)
    ensures
        opt_view(r) == document_extension_for(opt_str_view(filename), content_type@),
{
    match name_extension_of(filename) {
        Some(e) => {
            if is_supported_query_document_extension(e.as_str()) {
                return Some(e);
            }
        },
        None => {},
    }
    if chars_eq(&chars_of(content_type), &chars_of("application/pdf")) {
        Some("pdf".to_owned())
    } else {
        None
    }
}


/// The segments of a video from `start`: windows of 8 s that start every 6 s, the last one
/// ending at the video's end; a segment is never empty.
pub open spec fn segments_from(start: int, d: int) -> Seq<(int, int)>
    decreases d - start,
{
    let end = if start + VIDEO_SEGMENT_WINDOW_MS < d { start + VIDEO_SEGMENT_WINDOW_MS } else { d };
    let seg = (start, if end > start + 1 { end } else { start + 1 });
    if end >= d {
        seq![seg]
    } else {
        seq![seg] + segments_from(start + (VIDEO_SEGMENT_WINDOW_MS - VIDEO_SEGMENT_OVERLAP_MS), d)
    }
}

/// The segments of a video of the given duration (a duration of zero counts as 1 ms).
pub open spec fn video_segments(duration_ms: u64) -> Seq<(int, int)> {
    segments_from(0, if duration_ms > 1 { duration_ms as int } else { 1 })
}

proof fn lemma_segments_from(start: int, d: int)
    requires
        0 <= start < d,
    ensures
        segments_from(start, d).len() >= 1,
        segments_from(start, d)[0].0 == start,
        segments_from(start, d).last().1 == d,
        forall|i: int| 0 <= i < segments_from(start, d).len() ==> {
            let s = #[trigger] segments_from(start, d)[i];
            &&& s.0 < s.1
            &&& s.1 - s.0 <= VIDEO_SEGMENT_WINDOW_MS
            &&& s.1 <= d
        },
        forall|i: int| 1 <= i < segments_from(start, d).len() ==> (#[trigger] segments_from(start, d)[i]).0
            == segments_from(start, d)[i - 1].0 + (VIDEO_SEGMENT_WINDOW_MS - VIDEO_SEGMENT_OVERLAP_MS),
    decreases d - start,
{
    let end = if start + VIDEO_SEGMENT_WINDOW_MS < d { start + VIDEO_SEGMENT_WINDOW_MS } else { d };
    if end < d {
        let next = start + (VIDEO_SEGMENT_WINDOW_MS - VIDEO_SEGMENT_OVERLAP_MS);
        lemma_segments_from(next, d);
        let rest = segments_from(next, d);
        let all = segments_from(start, d);
        assert(all == seq![(start, end)] + rest);
        assert forall|i: int| 1 <= i < all.len() implies (#[trigger] all[i]).0 == all[i - 1].0 + (
        VIDEO_SEGMENT_WINDOW_MS - VIDEO_SEGMENT_OVERLAP_MS) by {
            assert(all[i] == rest[i - 1]);
            if i > 1 {
                assert(all[i - 1] == rest[i - 2]);
            } else {
                assert(all[0].0 == start);
                assert(rest[0].0 == next);
            }
        }
        assert forall|i: int| 0 <= i < all.len() implies {
            let s = #[trigger] all[i];
            &&& s.0 < s.1
            &&& s.1 - s.0 <= VIDEO_SEGMENT_WINDOW_MS
            &&& s.1 <= d
        } by {
            if i > 0 {
                assert(all[i] == rest[i - 1]);
            }
        }
    }
}

/// The segments into which a video of the given duration is indexed (see
/// `video_segments`): the first starts at 0, the last ends at the video's end, each lasts at
/// most 8 s and is not empty, and each starts 6 s after the one before.
pub fn build_video_segment_ranges(duration_ms: u64) -> (r: Vec<(u64, u64)>)
    requires
        duration_ms <= u64::MAX - VIDEO_SEGMENT_WINDOW_MS,
    ensures
        r@.len() == video_segments(duration_ms).len(),
        forall|i: int| 0 <= i < r@.len() ==> r@[i].0 == (#[trigger] video_segments(duration_ms)[i]).0 && r@[i].1
            == video_segments(duration_ms)[i].1,
        r@.len() >= 1,
        r@[0].0 == 0,
        r@.last().1 == if duration_ms > 1 { duration_ms } else { 1 },
        forall|i: int| 0 <= i < r@.len() ==> (#[trigger] r@[i]).0 < r@[i].1 && r@[i].1 - r@[i].0 <= VIDEO_SEGMENT_WINDOW_MS,
        forall|i: int| 1 <= i < r@.len() ==> (#[trigger] r@[i]).0 == r@[i - 1].0 + (VIDEO_SEGMENT_WINDOW_MS
            - VIDEO_SEGMENT_OVERLAP_MS),
{
    let d: u64 = if duration_ms > 1 { duration_ms } else { 1 };
    let step: u64 = VIDEO_SEGMENT_WINDOW_MS - VIDEO_SEGMENT_OVERLAP_MS;
    let ghost all = segments_from(0, d as int);
    proof {
        lemma_segments_from(0, d as int);
    }
    let mut ranges: Vec<(u64, u64)> = Vec::new();
    let mut start: u64 = 0;
    loop
        invariant_except_break
            all == {
                let done = ranges@.map_values(|p: (u64, u64)| (p.0 as int, p.1 as int));
                done + segments_from(start as int, d as int)
            },
        invariant
            d >= 1,
            d <= u64::MAX - VIDEO_SEGMENT_WINDOW_MS,
            step == VIDEO_SEGMENT_WINDOW_MS - VIDEO_SEGMENT_OVERLAP_MS,
            all == segments_from(0, d as int),
            start < d,
        ensures
            all == ranges@.map_values(|p: (u64, u64)| (p.0 as int, p.1 as int)),
        decreases d - start,
    {
        let end = if start + VIDEO_SEGMENT_WINDOW_MS < d { start + VIDEO_SEGMENT_WINDOW_MS } else { d };
        let hi = if end > start + 1 { end } else { start + 1 };
        let ghost before = ranges@.map_values(|p: (u64, u64)| (p.0 as int, p.1 as int));
        ranges.push((start, hi));
        assert(ranges@.map_values(|p: (u64, u64)| (p.0 as int, p.1 as int)) =~= before.push((start as int, hi as int)));
        if end >= d {
            assert(segments_from(start as int, d as int) == seq![(start as int, hi as int)]);
            assert(all =~= ranges@.map_values(|p: (u64, u64)| (p.0 as int, p.1 as int)));
            break;
        }
        assert(segments_from(start as int, d as int) == seq![(start as int, hi as int)] + segments_from(
            start + step,
            d as int,
        ));
        assert(before + segments_from(start as int, d as int) =~= before.push((start as int, hi as int))
            + segments_from(start + step, d as int));
        start = start + step;
    }
    proof {
        let m = ranges@.map_values(|p: (u64, u64)| (p.0 as int, p.1 as int));
        assert(m == all);
        assert forall|i: int| 0 <= i < ranges@.len() implies ranges@[i].0 == (#[trigger] video_segments(duration_ms)[i]).0
            && ranges@[i].1 == video_segments(duration_ms)[i].1 by {
            assert(m[i] == all[i]);
        }
        assert forall|i: int| 0 <= i < ranges@.len() implies (#[trigger] ranges@[i]).0 < ranges@[i].1 && ranges@[i].1
            - ranges@[i].0 <= VIDEO_SEGMENT_WINDOW_MS by {
            assert(m[i] == all[i]);
        }
        assert forall|i: int| 1 <= i < ranges@.len() implies (#[trigger] ranges@[i]).0 == ranges@[i - 1].0 + (
        VIDEO_SEGMENT_WINDOW_MS - VIDEO_SEGMENT_OVERLAP_MS) by {
            assert(m[i] == all[i]);
            assert(m[i - 1] == all[i - 1]);
        }
        assert(m[0] == all[0]);
        assert(m.last() == all.last());
    }
    ranges
}


/// Details that name a field.
pub open spec fn field_json(field: Seq<char>) -> JsonV {
    JsonV::Object(pairs_insert(seq![], "field"@, JsonV::Str(field)))
}

/// A number document of a non-negative integer.
pub open spec fn num(n: nat) -> JsonV {
    JsonV::Number(decimal(n))
}

/// An object of three numbers.
pub open spec fn three_numbers(k1: Seq<char>, v1: nat, k2: Seq<char>, v2: nat, k3: Seq<char>, v3: nat) -> crate::json::Pairs {
    pairs_insert(pairs_insert(pairs_insert(seq![], k1, num(v1)), k2, num(v2)), k3, num(v3))
}

fn three_numbers_json(k1: &str, v1: u64, k2: &str, v2: u64, k3: &str, v3: u64) -> (r: Vec<(String, Json)>)
    ensures
        crate::json::pairs_model(r@) == three_numbers(k1@, v1 as nat, k2@, v2 as nat, k3@, v3 as nat),
{
    let mut o = empty_members();
    put_member(&mut o, k1, json_u64(v1));
    put_member(&mut o, k2, json_u64(v2));
    put_member(&mut o, k3, json_u64(v3));
    o
}

fn missing_member_error(message: &str, field_name: &str, suffix: &str) -> (r: ApiError)
    ensures
        api_error_is(r, 422, "validation_failed"@, message@, Some(field_json(field_name@ + suffix@)), false),
{
    let mut f = chars_of(field_name);
    append_str(&mut f, suffix);
    ApiError::validation_failed(message, Some(field_details(string_of(&f).as_str())))
}

/// A video query locator checked against the video's duration: none without a locator,
/// else the locator's integer `start_ms` and `end_ms` with the duration, provided that
/// `start_ms < end_ms <= duration_ms`.
pub open spec fn video_locator_outcome(locator: Option<JsonV>, duration_ms: Option<u64>, field: Seq<char>, r: Result<Option<Json>, ApiError>) -> bool {
    match duration_ms {
        None => r matches Err(e) && api_error_is(
            e,
            503,
            "runtime_unavailable"@,
            "Video duration is unavailable for the selected query input."@,
            Some(field_json(field)),
            true,
        ),
        Some(d) => match locator {
            None => r matches Ok(None),
            Some(l) => match (u64_member(l, "start_ms"@), u64_member(l, "end_ms"@)) {
                (None, _) => r matches Err(e) && api_error_is(
                    e,
                    422,
                    "validation_failed"@,
                    "Video locator must include integer start_ms."@,
                    Some(field_json(field + ".start_ms"@)),
                    false,
                ),
                (Some(_), None) => r matches Err(e) && api_error_is(
                    e,
                    422,
                    "validation_failed"@,
                    "Video locator must include integer end_ms."@,
                    Some(field_json(field + ".end_ms"@)),
                    false,
                ),
                (Some(s), Some(t)) => if s >= t || t > d {
                    r matches Err(e) && api_error_is(
                        e,
                        422,
                        "validation_failed"@,
                        "Video locator must satisfy 0 <= start_ms < end_ms <= duration_ms."@,
                        Some(JsonV::Object(pairs_insert(
                            three_numbers("start_ms"@, s as nat, "end_ms"@, t as nat, "duration_ms"@, d as nat),
                            "field"@,
                            JsonV::Str(field),
                        ))),
                        false,
                    )
                } else {
                    r matches Ok(Some(j)) && json_model(j) == JsonV::Object(
                        three_numbers("start_ms"@, s as nat, "end_ms"@, t as nat, "duration_ms"@, d as nat),
                    )
                },
            },
        },
    }
}

/// Checks a video query locator (see `video_locator_outcome`).
pub fn resolve_video_query_locator(locator: Option<&Json>, duration_ms: Option<u64>, field_name: &str) -> (r: Result<Option<Json>, ApiError>)
    ensures
        video_locator_outcome(
            match locator {
                Some(l) => Some(json_model(*l)),
                None => None,
            },
            duration_ms,
            field_name@,
            r,
        ),
{
    let d = match duration_ms {
        None => {
            return Err(ApiError::runtime_unavailable(
                "Video duration is unavailable for the selected query input.",
                Some(field_details(field_name)),
            ));
        },
        Some(d) => d,
    };
    let l = match locator {
        None => {
            return Ok(None);
        },
        Some(l) => l,
    };
    let start = match u64_field(l, "start_ms") {
        None => {
            return Err(missing_member_error("Video locator must include integer start_ms.", field_name, ".start_ms"));
        },
        Some(s) => s,
    };
    let end = match u64_field(l, "end_ms") {
        None => {
            return Err(missing_member_error("Video locator must include integer end_ms.", field_name, ".end_ms"));
        },
        Some(t) => t,
    };
    if start >= end || end > d {
        let mut details = three_numbers_json("start_ms", start, "end_ms", end, "duration_ms", d);
        put_member(&mut details, "field", Json::Str(field_name.to_owned()));
        return Err(ApiError::validation_failed(
            "Video locator must satisfy 0 <= start_ms < end_ms <= duration_ms.",
            Some(Json::Object(details)),
        ));
    }
    Ok(Some(Json::Object(three_numbers_json("start_ms", start, "end_ms", end, "duration_ms", d))))
}

/// A document query locator checked against the document's page count: none without a
/// locator, else the locator's integer `start_page` and `end_page` with the page count,
/// provided that `1 <= start_page <= end_page <= page_count`.
pub open spec fn document_locator_outcome(locator: Option<JsonV>, page_count: Option<usize>, field: Seq<char>, r: Result<Option<Json>, ApiError>) -> bool {
    match page_count {
        None => r matches Err(e) && api_error_is(
            e,
            503,
            "runtime_unavailable"@,
            "Document page count is unavailable for the selected query input."@,
            Some(field_json(field)),
            true,
        ),
        Some(n) => match locator {
            None => r matches Ok(None),
            Some(l) => match (u64_member(l, "start_page"@), u64_member(l, "end_page"@)) {
                (None, _) => r matches Err(e) && api_error_is(
                    e,
                    422,
                    "validation_failed"@,
                    "Document locator must include integer start_page."@,
                    Some(field_json(field + ".start_page"@)),
                    false,
                ),
                (Some(_), None) => r matches Err(e) && api_error_is(
                    e,
                    422,
                    "validation_failed"@,
                    "Document locator must include integer end_page."@,
                    Some(field_json(field + ".end_page"@)),
                    false,
                ),
                (Some(s), Some(t)) => if s < 1 || t < s || t > n {
                    r matches Err(e) && api_error_is(
                        e,
                        422,
                        "validation_failed"@,
                        "Document locator must satisfy 1 <= start_page <= end_page <= page_count."@,
                        Some(JsonV::Object(pairs_insert(
                            three_numbers("start_page"@, s as nat, "end_page"@, t as nat, "page_count"@, n as nat),
                            "field"@,
                            JsonV::Str(field),
                        ))),
                        false,
                    )
                } else {
                    r matches Ok(Some(j)) && json_model(j) == JsonV::Object(
                        three_numbers("start_page"@, s as nat, "end_page"@, t as nat, "page_count"@, n as nat),
                    )
                },
            },
        },
    }
}

/// Checks a document query locator (see `document_locator_outcome`).
pub fn resolve_document_query_locator(locator: Option<&Json>, page_count: Option<usize>, field_name: &str) -> (r: Result<Option<Json>, ApiError>)
    ensures
        document_locator_outcome(
            match locator {
                Some(l) => Some(json_model(*l)),
                None => None,
            },
            page_count,
            field_name@,
            r,
        ),
{
    let n = match page_count {
        None => {
            return Err(ApiError::runtime_unavailable(
                "Document page count is unavailable for the selected query input.",
                Some(field_details(field_name)),
            ));
        },
        Some(n) => n,
    };
    let l = match locator {
        None => {
            return Ok(None);
        },
        Some(l) => l,
    };
    let start = match u64_field(l, "start_page") {
        None => {
            return Err(missing_member_error("Document locator must include integer start_page.", field_name, ".start_page"));
        },
        Some(s) => s,
    };
    let end = match u64_field(l, "end_page") {
        None => {
            return Err(missing_member_error("Document locator must include integer end_page.", field_name, ".end_page"));
        },
        Some(t) => t,
    };
    if start < 1 || end < start || end > n as u64 {
        let mut details = three_numbers_json("start_page", start, "end_page", end, "page_count", n as u64);
        put_member(&mut details, "field", Json::Str(field_name.to_owned()));
        return Err(ApiError::validation_failed(
            "Document locator must satisfy 1 <= start_page <= end_page <= page_count.",
            Some(Json::Object(details)),
        ));
    }
    Ok(Some(Json::Object(three_numbers_json("start_page", start, "end_page", end, "page_count", n as u64))))
}


/// Where a preview can be fetched, and the handle that names it.
#[derive(Debug)]
pub struct PreviewReference {
    pub url: String,
    pub handle: Option<String>,
}

/// The service's base URL as configured, without trailing slashes.
pub open spec fn base_of(app_base_url: Seq<char>) -> Seq<char> {
    trim_end_char(app_base_url, '/')
}

/// Milliseconds as seconds with three decimals.
pub open spec fn seconds_text(ms: u64) -> Seq<char> {
    let f = (ms % 1000) as nat;
    decimal((ms / 1000) as nat) + seq!['.', digit_char(f / 100), digit_char((f / 10) % 10), digit_char(f % 10)]
}

fn seconds_text_of(ms: u64) -> (r: Vec<char>)
    ensures
        r@ == seconds_text(ms),
{
    let mut t = decimal_chars(ms / 1000);
    let f = ms % 1000;
    t.push('.');
    t.push(digit_char_exec(f / 100));
    t.push(digit_char_exec((f / 10) % 10));
    t.push(digit_char_exec(f % 10));
    t
}

/// The preview URL of an indexed unit: the unit's preview endpoint, opened at its page for
/// a document page and at its time span for a video segment.
pub open spec fn unit_preview_url(app_base_url: Seq<char>, library_id: Seq<char>, unit_id: Seq<char>, kind: Seq<char>, locator: JsonV) -> Seq<char> {
    let base = base_of(app_base_url) + "/libraries/"@ + library_id + "/visual-units/"@ + unit_id + "/preview"@;
    if kind == "document_page"@ {
        let page = match u64_member(locator, "page"@) {
            Some(p) => p,
            None => 1,
        };
        base + "#page="@ + decimal(page as nat) + "&view=FitH"@
    } else if kind == "video_segment"@ {
        let s = match u64_member(locator, "start_ms"@) {
            Some(v) => v,
            None => 0,
        };
        let e = match u64_member(locator, "end_ms"@) {
            Some(v) => v,
            None => 0,
        };
        base + "#t="@ + seconds_text(s) + ","@ + seconds_text(e)
    } else {
        base
    }
}

/// The preview of an indexed unit (see `unit_preview_url`); its handle is `preview:` and
/// the unit's id.
pub fn visual_unit_preview_reference(app_base_url: &str, library_id: &str, visual_unit_id: &str, kind: &str, locator: &Json) -> (r: PreviewReference)
    ensures
        r.url@ == unit_preview_url(app_base_url@, library_id@, visual_unit_id@, kind@, json_model(*locator)),
        opt_view(r.handle) == Some("preview:"@ + visual_unit_id@),
{
    let mut base = trim_end_char_exec(&chars_of(app_base_url), '/');
    append_str(&mut base, "/libraries/");
    append_str(&mut base, library_id);
    append_str(&mut base, "/visual-units/");
    append_str(&mut base, visual_unit_id);
    append_str(&mut base, "/preview");
    let k = chars_of(kind);
    let url = if chars_eq(&k, &chars_of("document_page")) {
        let page = match u64_field(locator, "page") {
            Some(p) => p,
            None => 1,
        };
        let mut u = base;
        append_str(&mut u, "#page=");
        append_chars(&mut u, &decimal_chars(page));
        append_str(&mut u, "&view=FitH");
        u
    } else if chars_eq(&k, &chars_of("video_segment")) {
        let start = match u64_field(locator, "start_ms") {
            Some(v) => v,
            None => 0,
        };
        let end = match u64_field(locator, "end_ms") {
            Some(v) => v,
            None => 0,
        };
        let mut u = base;
        append_str(&mut u, "#t=");
        append_chars(&mut u, &seconds_text_of(start));
        append_str(&mut u, ",");
        append_chars(&mut u, &seconds_text_of(end));
        u
    } else {
        base
    };
    let mut h = chars_of("preview:");
    append_str(&mut h, visual_unit_id);
    PreviewReference { url: string_of(&url), handle: Some(string_of(&h)) }
}

fn preview(app_base_url: &str, middle: &str, library_id: &str, kind_path: &str, id: &str, suffix: &str, handle_prefix: &str) -> (r: PreviewReference)
    ensures
        r.url@ == base_of(app_base_url@) + middle@ + library_id@ + kind_path@ + id@ + suffix@,
        opt_view(r.handle) == Some(handle_prefix@ + id@),
{
    let mut u = trim_end_char_exec(&chars_of(app_base_url), '/');
    append_str(&mut u, middle);
    append_str(&mut u, library_id);
    append_str(&mut u, kind_path);
    append_str(&mut u, id);
    append_str(&mut u, suffix);
    let mut h = chars_of(handle_prefix);
    append_str(&mut h, id);
    PreviewReference { url: string_of(&u), handle: Some(string_of(&h)) }
}

/// The preview of an uploaded query video.
pub fn query_video_preview_reference(app_base_url: &str, library_id: &str, temp_asset_id: &str) -> (r: PreviewReference)
    ensures
        r.url@ == base_of(app_base_url@) + "/libraries/"@ + library_id@ + "/query-assets/videos/"@ + temp_asset_id@
            + "/preview"@,
        opt_view(r.handle) == Some("query-video-preview:"@ + temp_asset_id@),
{
    preview(app_base_url, "/libraries/", library_id, "/query-assets/videos/", temp_asset_id, "/preview", "query-video-preview:")
}

/// The preview of an uploaded query document, opened at its first page.
pub fn query_document_preview_reference(app_base_url: &str, library_id: &str, temp_asset_id: &str) -> (r: PreviewReference)
    ensures
        r.url@ == base_of(app_base_url@) + "/libraries/"@ + library_id@ + "/query-assets/documents/"@ + temp_asset_id@
            + "/preview#page=1&view=FitH"@,
        opt_view(r.handle) == Some("query-document-preview:"@ + temp_asset_id@),
{
    preview(
        app_base_url,
        "/libraries/",
        library_id,
        "/query-assets/documents/",
        temp_asset_id,
        "/preview#page=1&view=FitH",
        "query-document-preview:",
    )
}

/// The preview of a video source.
pub fn video_source_preview_reference(app_base_url: &str, library_id: &str, source_id: &str) -> (r: PreviewReference)
    ensures
        r.url@ == base_of(app_base_url@) + "/libraries/"@ + library_id@ + "/video-sources/"@ + source_id@ + "/preview"@,
        opt_view(r.handle) == Some("video-source-preview:"@ + source_id@),
{
    preview(app_base_url, "/libraries/", library_id, "/video-sources/", source_id, "/preview", "video-source-preview:")
}

/// The preview of an uploaded query image.
pub fn query_image_preview_reference(app_base_url: &str, library_id: &str, temp_asset_id: &str) -> (r: PreviewReference)
    ensures
        r.url@ == base_of(app_base_url@) + "/libraries/"@ + library_id@ + "/query-assets/images/"@ + temp_asset_id@
            + "/preview"@,
        opt_view(r.handle) == Some("query-image-preview:"@ + temp_asset_id@),
{
    preview(app_base_url, "/libraries/", library_id, "/query-assets/images/", temp_asset_id, "/preview", "query-image-preview:")
}

/// The media type of a source: PDF for PDF sources, a video type by extension for videos
/// (MP4 by default), an image type by extension otherwise (PNG by default).
pub open spec fn content_type_of(source_type: Seq<char>, source_path: Seq<char>) -> Seq<char> {
    let e = match path_extension(source_path) {
        Some(x) => Some(ascii_lowercase(x)),
        None => None,
    };
    if source_type == "pdf"@ {
        "application/pdf"@
    } else if source_type == "video"@ {
        if e == Some("mov"@) {
            "video/quicktime"@
        } else if e == Some("m4v"@) {
            "video/x-m4v"@
        } else {
            "video/mp4"@
        }
    } else if e == Some("jpg"@) || e == Some("jpeg"@) {
        "image/jpeg"@
    } else if e == Some("webp"@) {
        "image/webp"@
    } else if e == Some("gif"@) {
        "image/gif"@
    } else if e == Some("bmp"@) {
        "image/bmp"@
    } else {
        "image/png"@
    }
}

fn ext_is(e: &Option<String>, lit: &str) -> (r: bool)
    ensures
        r == (opt_view(*e) == Some(lit@)),
{
    match e {
        Some(x) => chars_eq(&chars_of(x.as_str()), &chars_of(lit)),
        None => false,
    }
}

/// The media type of a source (see `content_type_of`).
pub fn content_type_for_source_type_and_path(source_type: &str, source_path: &str) -> (r: &'static str)
    ensures
        r@ == content_type_of(source_type@, source_path@),
{
    let e = match extension_of(source_path) {
        Some(x) => Some(string_of(&ascii_lowercase_chars(&chars_of(x.as_str())))),
        None => None,
    };
    let t = chars_of(source_type);
    if chars_eq(&t, &chars_of("pdf")) {
        "application/pdf"
    } else if chars_eq(&t, &chars_of("video")) {
        if ext_is(&e, "mov") {
            "video/quicktime"
        } else if ext_is(&e, "m4v") {
            "video/x-m4v"
        } else {
            "video/mp4"
        }
    } else if ext_is(&e, "jpg") || ext_is(&e, "jpeg") {
        "image/jpeg"
    } else if ext_is(&e, "webp") {
        "image/webp"
    } else if ext_is(&e, "gif") {
        "image/gif"
    } else if ext_is(&e, "bmp") {
        "image/bmp"
    } else {
        "image/png"
    }
}

/// The media type of a library source (see `content_type_of`).
pub fn content_type_for_source(source: &SourceRecord) -> (r: &'static str)
    ensures
        r@ == content_type_of(source.source_type@, source.source_path@),
{
    content_type_for_source_type_and_path(source.source_type.as_str(), source.source_path.as_str())
}

/// The service's base URL from its host and port.
pub fn app_base_url(host: &str, port: &str) -> (r: String)
    ensures
        r@ == "http://"@ + host@ + ":"@ + port@,
{
    let mut u = chars_of("http://");
    append_str(&mut u, host);
    append_str(&mut u, ":");
    append_str(&mut u, port);
    string_of(&u)
}

} // verus!
