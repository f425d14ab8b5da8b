//! The streaming completion decoder: typed partial results, the grammar of
//! one data payload, the event classifier, the stream controller state
//! machine, and the whole-run laws that hold of every event sequence.
//!
//! The controller consumes raw transport events as plain values. Connection
//! `Opened` events are skipped without a caller-visible item; a `[DONE]`
//! payload ends the stream cleanly; a payload that fails to decode or a
//! transport failure yields exactly one error item and instructs the caller
//! to close the underlying connection; afterwards every poll returns
//! end-of-sequence.

use vstd::prelude::*;

use crate::json::flat_opt;
use crate::json::opt2_view;
use crate::json::opt_str_view;
use crate::json::parse_int;
use crate::json::parse_string;
use crate::json::skip_value;
use crate::json::skip_ws;
use crate::json::spec_parse_int;
use crate::json::spec_parse_string;
use crate::json::spec_skip_value;
use crate::json::spec_skip_ws;
use crate::json::str_chars;

verus! {

// ---------------------------------------------------------------------------
// Typed partial results
// ---------------------------------------------------------------------------

/// The incremental content carried by one choice of one chunk; an absent
/// `content` means the chunk carries no new text for that choice.
#[derive(Debug, Clone)]
pub struct CompletionChunkDelta {
    pub content: Option<String>,
}

/// One parallel candidate completion inside a chunk.
#[derive(Debug, Clone)]
pub struct CompletionChunkChoice {
    pub delta: CompletionChunkDelta,
    pub index: usize,
    pub finish_reason: Option<String>,
}

/// One decoded server-pushed update.
#[derive(Debug, Clone)]
pub struct CompletionChunkResponse {
    pub id: String,
    pub object: String,
    pub created: i64,
    pub model: String,
    pub choices: Vec<CompletionChunkChoice>,
}

pub struct DeltaView {
    pub content: Option<Seq<char>>,
}

pub struct ChoiceView {
    pub index: int,
    pub delta: DeltaView,
    pub finish_reason: Option<Seq<char>>,
}

pub struct ChunkView {
    pub id: Seq<char>,
    pub object: Seq<char>,
    pub created: int,
    pub model: Seq<char>,
    pub choices: Seq<ChoiceView>,
}

impl View for CompletionChunkDelta {
    type V = DeltaView;

    open spec fn view(&self) -> DeltaView {
        DeltaView { content: opt_str_view(self.content) }
    }
}

impl View for CompletionChunkChoice {
    type V = ChoiceView;

    open spec fn view(&self) -> ChoiceView {
        ChoiceView {
            index: self.index as int,
            delta: self.delta@,
            finish_reason: opt_str_view(self.finish_reason),
        }
    }
}

pub open spec fn choices_view(s: Seq<CompletionChunkChoice>) -> Seq<ChoiceView> {
    s.map_values(|c: CompletionChunkChoice| c@)
}

impl View for CompletionChunkResponse {
    type V = ChunkView;

    open spec fn view(&self) -> ChunkView {
        ChunkView {
            id: self.id@,
            object: self.object@,
            created: self.created as int,
            model: self.model@,
            choices: choices_view(self.choices@),
        }
    }
}

// ---------------------------------------------------------------------------
// The grammar of one data payload
// ---------------------------------------------------------------------------

/// A string member value that may also be the literal `null`.
pub open spec fn spec_opt_string(s: Seq<char>, i: int) -> Option<(Option<Seq<char>>, int)> {
    if 0 <= i && i < s.len() && s[i] == 'n' {
        if i + 4 <= s.len() && s[i + 1] == 'u' && s[i + 2] == 'l' && s[i + 3] == 'l' {
            Some((None, i + 4))
        } else {
            None
        }
    } else {
        match spec_parse_string(s, i) {
            Some((cs, j)) => Some((Some(cs), j)),
            None => None,
        }
    }
}

/// A member value for the `created` field: an integer in 64-bit signed range.
pub open spec fn spec_parse_created(s: Seq<char>, i: int) -> Option<(int, int)> {
    match spec_parse_int(s, i) {
        Some((v, j)) => {
            if -0x8000_0000_0000_0000 <= v && v <= 0x7FFF_FFFF_FFFF_FFFF {
                Some((v, j))
            } else {
                None
            }
        },
        None => None,
    }
}

/// A member value for the `index` field: an integer in unsigned size range.
pub open spec fn spec_parse_index(s: Seq<char>, i: int) -> Option<(int, int)> {
    match spec_parse_int(s, i) {
        Some((v, j)) => {
            if 0 <= v && v <= usize::MAX {
                Some((v, j))
            } else {
                None
            }
        },
        None => None,
    }
}

/// Members of a `delta` object, starting at a key or the closing brace.
/// The declared member is `content`; unknown members are skipped; a repeated
/// member is refused.
pub open spec fn spec_delta_members(
    s: Seq<char>,
    i: int,
    content: Option<Option<Seq<char>>>,
) -> Option<(DeltaView, int)>
    decreases s.len() - i,
{
    if i < 0 || i >= s.len() {
        None
    } else if s[i] == '}' {
        Some((DeltaView { content: flat_opt(content) }, i + 1))
    } else {
        match spec_parse_string(s, i) {
            Some((key, j)) => {
                let j2 = spec_skip_ws(s, j);
                if j2 < s.len() && s[j2] == ':' {
                    let k = spec_skip_ws(s, j2 + 1);
                    let parsed: Option<(Option<Option<Seq<char>>>, int)> = if key
                        == "content"@ {
                        if content is Some {
                            None
                        } else {
                            match spec_opt_string(s, k) {
                                Some((v, m)) => Some((Some(v), m)),
                                None => None,
                            }
                        }
                    } else {
                        match spec_skip_value(s, k) {
                            Some(m) => Some((content, m)),
                            None => None,
                        }
                    };
                    match parsed {
                        Some((acc2, m)) => {
                            if 0 <= m && m <= s.len() {
                                let m2 = spec_skip_ws(s, m);
                                if m2 < s.len() && s[m2] == ',' {
                                    let n = spec_skip_ws(s, m2 + 1);
                                    if i < n && n <= s.len() && !(n < s.len() && s[n] == '}') {
                                        spec_delta_members(s, n, acc2)
                                    } else {
                                        None
                                    }
                                } else if m2 < s.len() && s[m2] == '}' {
                                    Some((DeltaView { content: flat_opt(acc2) }, m2 + 1))
                                } else {
                                    None
                                }
                            } else {
                                None
                            }
                        },
                        None => None,
                    }
                } else {
                    None
                }
            },
            None => None,
        }
    }
}

/// Members of one `choices` element, starting at a key or the closing brace.
/// Declared members: `index` and `delta` (required), `finish_reason`
/// (optional, may be `null`); unknown members are skipped.
pub open spec fn spec_choice_members(
    s: Seq<char>,
    i: int,
    index: Option<int>,
    delta: Option<DeltaView>,
    finish: Option<Option<Seq<char>>>,
) -> Option<(ChoiceView, int)>
    decreases s.len() - i,
{
    if i < 0 || i >= s.len() {
        None
    } else if s[i] == '}' {
        if index is Some && delta is Some {
            Some(
                (
                    ChoiceView {
                        index: index->Some_0,
                        delta: delta->Some_0,
                        finish_reason: flat_opt(finish),
                    },
                    i + 1,
                ),
            )
        } else {
            None
        }
    } else {
        match spec_parse_string(s, i) {
            Some((key, j)) => {
                let j2 = spec_skip_ws(s, j);
                if j2 < s.len() && s[j2] == ':' {
                    let k = spec_skip_ws(s, j2 + 1);
                    let parsed: Option<(Option<int>, Option<DeltaView>, Option<Option<Seq<char>>>, int)> =
                        if key == "index"@ {
                        if index is Some {
                            None
                        } else {
                            match spec_parse_index(s, k) {
                                Some((v, m)) => Some((Some(v), delta, finish, m)),
                                None => None,
                            }
                        }
                    } else if key == "delta"@ {
                        if delta is Some {
                            None
                        } else {
                            if k < s.len() && s[k] == '{' {
                                let k2 = spec_skip_ws(s, k + 1);
                                if k < k2 && k2 <= s.len() {
                                    match spec_delta_members(s, k2, None) {
                                        Some((dv, m)) => Some((index, Some(dv), finish, m)),
                                        None => None,
                                    }
                                } else {
                                    None
                                }
                            } else {
                                None
                            }
                        }
                    } else if key == "finish_reason"@ {
                        if finish is Some {
                            None
                        } else {
                            match spec_opt_string(s, k) {
                                Some((v, m)) => Some((index, delta, Some(v), m)),
                                None => None,
                            }
                        }
                    } else {
                        match spec_skip_value(s, k) {
                            Some(m) => Some((index, delta, finish, m)),
                            None => None,
                        }
                    };
                    match parsed {
                        Some((index2, delta2, finish2, m)) => {
                            if 0 <= m && m <= s.len() {
                                let m2 = spec_skip_ws(s, m);
                                if m2 < s.len() && s[m2] == ',' {
                                    let n = spec_skip_ws(s, m2 + 1);
                                    if i < n && n <= s.len() && !(n < s.len() && s[n] == '}') {
                                        spec_choice_members(s, n, index2, delta2, finish2)
                                    } else {
                                        None
                                    }
                                } else if m2 < s.len() && s[m2] == '}' {
                                    if index2 is Some && delta2 is Some {
                                        Some(
                                            (
                                                ChoiceView {
                                                    index: index2->Some_0,
                                                    delta: delta2->Some_0,
                                                    finish_reason: flat_opt(finish2),
                                                },
                                                m2 + 1,
                                            ),
                                        )
                                    } else {
                                        None
                                    }
                                } else {
                                    None
                                }
                            } else {
                                None
                            }
                        },
                        None => None,
                    }
                } else {
                    None
                }
            },
            None => None,
        }
    }
}

/// Elements of the `choices` array, each a choice object, starting at an
/// element or the closing bracket.
pub open spec fn spec_choices_elements(
    s: Seq<char>,
    i: int,
    acc: Seq<ChoiceView>,
) -> Option<(Seq<ChoiceView>, int)>
    decreases s.len() - i,
{
    if i < 0 || i >= s.len() {
        None
    } else if s[i] == ']' {
        Some((acc, i + 1))
    } else if s[i] == '{' {
        let j = spec_skip_ws(s, i + 1);
        if i < j && j <= s.len() {
            match spec_choice_members(s, j, None, None, None) {
                Some((cv, m)) => {
                    if i < m && m <= s.len() {
                        let m2 = spec_skip_ws(s, m);
                        if m2 < s.len() && s[m2] == ',' {
                            let n = spec_skip_ws(s, m2 + 1);
                            if i < n && n <= s.len() && !(n < s.len() && s[n] == ']') {
                                spec_choices_elements(s, n, acc.push(cv))
                            } else {
                                None
                            }
                        } else if m2 < s.len() && s[m2] == ']' {
                            Some((acc.push(cv), m2 + 1))
                        } else {
                            None
                        }
                    } else {
                        None
                    }
                },
                None => None,
            }
        } else {
            None
        }
    } else {
        None
    }
}

/// Members of the top-level chunk object. Declared members, all required:
/// `id`, `object` and `model` (strings), `created` (64-bit integer),
/// `choices` (array of choice objects); unknown members are skipped.
pub open spec fn spec_chunk_members(
    s: Seq<char>,
    i: int,
    id: Option<Seq<char>>,
    object: Option<Seq<char>>,
    created: Option<int>,
    model: Option<Seq<char>>,
    choices: Option<Seq<ChoiceView>>,
) -> Option<(ChunkView, int)>
    decreases s.len() - i,
{
    if i < 0 || i >= s.len() {
        None
    } else if s[i] == '}' {
        if id is Some && object is Some && created is Some && model is Some && choices is Some {
            Some(
                (
                    ChunkView {
                        id: id->Some_0,
                        object: object->Some_0,
                        created: created->Some_0,
                        model: model->Some_0,
                        choices: choices->Some_0,
                    },
                    i + 1,
                ),
            )
        } else {
            None
        }
    } else {
        match spec_parse_string(s, i) {
            Some((key, j)) => {
                let j2 = spec_skip_ws(s, j);
                if j2 < s.len() && s[j2] == ':' {
                    let k = spec_skip_ws(s, j2 + 1);
                    let parsed: Option<(Option<Seq<char>>, Option<Seq<char>>, Option<int>, Option<Seq<char>>, Option<Seq<ChoiceView>>, int)> =
                        if key == "id"@ {
                        if id is Some {
                            None
                        } else {
                            match spec_parse_string(s, k) {
                                Some((v, m)) => Some((Some(v), object, created, model, choices, m)),
                                None => None,
                            }
                        }
                    } else if key == "object"@ {
                        if object is Some {
                            None
                        } else {
                            match spec_parse_string(s, k) {
                                Some((v, m)) => Some((id, Some(v), created, model, choices, m)),
                                None => None,
                            }
                        }
                    } else if key == "created"@ {
                        if created is Some {
                            None
                        } else {
                            match spec_parse_created(s, k) {
                                Some((v, m)) => Some((id, object, Some(v), model, choices, m)),
                                None => None,
                            }
                        }
                    } else if key == "model"@ {
                        if model is Some {
                            None
                        } else {
                            match spec_parse_string(s, k) {
                                Some((v, m)) => Some((id, object, created, Some(v), choices, m)),
                                None => None,
                            }
                        }
                    } else if key == "choices"@ {
                        if choices is Some {
                            None
                        } else {
                            if k < s.len() && s[k] == '[' {
                                let k2 = spec_skip_ws(s, k + 1);
                                if k < k2 && k2 <= s.len() {
                                    match spec_choices_elements(s, k2, Seq::empty()) {
                                        Some((cvs, m)) => Some(
                                            (id, object, created, model, Some(cvs), m),
                                        ),
                                        None => None,
                                    }
                                } else {
                                    None
                                }
                            } else {
                                None
                            }
                        }
                    } else {
                        match spec_skip_value(s, k) {
                            Some(m) => Some((id, object, created, model, choices, m)),
                            None => None,
                        }
                    };
                    match parsed {
                        Some((id2, object2, created2, model2, choices2, m)) => {
                            if 0 <= m && m <= s.len() {
                                let m2 = spec_skip_ws(s, m);
                                if m2 < s.len() && s[m2] == ',' {
                                    let n = spec_skip_ws(s, m2 + 1);
                                    if i < n && n <= s.len() && !(n < s.len() && s[n] == '}') {
                                        spec_chunk_members(s, n, id2, object2, created2, model2, choices2)
                                    } else {
                                        None
                                    }
                                } else if m2 < s.len() && s[m2] == '}' {
                                    if id2 is Some && object2 is Some && created2 is Some
                                        && model2 is Some && choices2 is Some {
                                        Some(
                                            (
                                                ChunkView {
                                                    id: id2->Some_0,
                                                    object: object2->Some_0,
                                                    created: created2->Some_0,
                                                    model: model2->Some_0,
                                                    choices: choices2->Some_0,
                                                },
                                                m2 + 1,
                                            ),
                                        )
                                    } else {
                                        None
                                    }
                                } else {
                                    None
                                }
                            } else {
                                None
                            }
                        },
                        None => None,
                    }
                } else {
                    None
                }
            },
            None => None,
        }
    }
}

/// The chunk stood for by a whole data payload: one chunk object with
/// nothing but whitespace around it, or nothing if the payload is malformed.
pub open spec fn spec_chunk(s: Seq<char>) -> Option<ChunkView> {
    let i = spec_skip_ws(s, 0);
    if 0 <= i && i < s.len() && s[i] == '{' {
        let j = spec_skip_ws(s, i + 1);
        if j <= s.len() {
            match spec_chunk_members(s, j, None, None, None, None, None) {
                Some((cv, k)) => {
                    if 0 <= k && k <= s.len() && spec_skip_ws(s, k) == s.len() {
                        Some(cv)
                    } else {
                        None
                    }
                },
                None => None,
            }
        } else {
            None
        }
    } else {
        None
    }
}

// ---------------------------------------------------------------------------
// The chunk decoder
// ---------------------------------------------------------------------------

/// The payload of a data message was not the sentinel and did not decode
/// into a chunk; the offending payload is carried for diagnosis.
#[derive(Debug, Clone)]
pub struct DecodeError {
    pub payload: String,
}

fn key_is(k: &String, lit: &str) -> (b: bool)
    ensures
        b == (k@ == lit@),
{
    let l = String::from_str(lit);
    k.eq(&l)
}

fn opt_string(cs: &Vec<char>, i: usize) -> (r: Option<(Option<String>, usize)>)
    requires
        i <= cs@.len(),
    ensures
        r is Some <==> spec_opt_string(cs@, i as int) is Some,
        r matches Some(p) ==> (spec_opt_string(cs@, i as int) matches Some(q)
            && opt_str_view(p.0) == q.0 && p.1 as int == q.1 && i < p.1 <= cs@.len()),
{
    if i < cs.len() && cs[i] == 'n' {
        if cs.len() - i >= 4 && cs[i + 1] == 'u' && cs[i + 2] == 'l' && cs[i + 3] == 'l' {
            Some((None, i + 4))
        } else {
            None
        }
    } else {
        match parse_string(cs, i) {
            Some((v, j)) => Some((Some(v), j)),
            None => None,
        }
    }
}

fn parse_created(cs: &Vec<char>, i: usize) -> (r: Option<(i64, usize)>)
    requires
        i <= cs@.len(),
    ensures
        r is Some <==> spec_parse_created(cs@, i as int) is Some,
        r matches Some(p) ==> (spec_parse_created(cs@, i as int) matches Some(q)
            && p.0 as int == q.0 && p.1 as int == q.1 && i < p.1 <= cs@.len()),
{
    match parse_int(cs, i) {
        Some((neg, mag, j)) => {
            if neg {
                if mag <= 0x8000_0000_0000_0000u64 {
                    if mag == 0x8000_0000_0000_0000u64 {
                        Some((i64::MIN, j))
                    } else {
                        Some((-(mag as i64), j))
                    }
                } else {
                    None
                }
            } else {
                if mag <= 0x7FFF_FFFF_FFFF_FFFFu64 {
                    Some((mag as i64, j))
                } else {
                    None
                }
            }
        },
        None => None,
    }
}

fn parse_index(cs: &Vec<char>, i: usize) -> (r: Option<(usize, usize)>)
    requires
        i <= cs@.len(),
    ensures
        r is Some <==> spec_parse_index(cs@, i as int) is Some,
        r matches Some(p) ==> (spec_parse_index(cs@, i as int) matches Some(q)
            && p.0 as int == q.0 && p.1 as int == q.1 && i < p.1 <= cs@.len()),
{
    match parse_int(cs, i) {
        Some((neg, mag, j)) => {
            if neg {
                if mag == 0 {
                    Some((0, j))
                } else {
                    None
                }
            } else {
                if mag <= usize::MAX as u64 {
                    Some((mag as usize, j))
                } else {
                    None
                }
            }
        },
        None => None,
    }
}

fn delta_members(cs: &Vec<char>, i: usize, content: Option<Option<String>>) -> (r: Option<
    (CompletionChunkDelta, usize),
>)
    requires
        i <= cs@.len(),
    ensures
        r is Some <==> spec_delta_members(cs@, i as int, opt2_view(content)) is Some,
        r matches Some(p) ==> (spec_delta_members(cs@, i as int, opt2_view(content))
            matches Some(q) && p.0@ == q.0 && p.1 as int == q.1 && i < p.1 <= cs@.len()),
    decreases cs@.len() - i,
{
    if i >= cs.len() {
        return None;
    }
    if cs[i] == '}' {
        let c = match content {
            Some(v) => v,
            None => None,
        };
        return Some((CompletionChunkDelta { content: c }, i + 1));
    }
    match parse_string(cs, i) {
        Some((key, j)) => {
            let j2 = skip_ws(cs, j);
            if j2 < cs.len() && cs[j2] == ':' {
                let k = skip_ws(cs, j2 + 1);
                let parsed: Option<(Option<Option<String>>, usize)> = if key_is(&key, "content") {
                    if content.is_some() {
                        None
                    } else {
                        match opt_string(cs, k) {
                            Some((v, m)) => Some((Some(v), m)),
                            None => None,
                        }
                    }
                } else {
                    match skip_value(cs, k) {
                        Some(m) => Some((content, m)),
                        None => None,
                    }
                };
                match parsed {
                    Some((acc2, m)) => {
                        if m <= cs.len() {
                            let m2 = skip_ws(cs, m);
                            if m2 < cs.len() && cs[m2] == ',' {
                                let n = skip_ws(cs, m2 + 1);
                                if i < n && n <= cs.len() && !(n < cs.len() && cs[n] == '}') {
                                    delta_members(cs, n, acc2)
                                } else {
                                    None
                                }
                            } else if m2 < cs.len() && cs[m2] == '}' {
                                let c = match acc2 {
                                    Some(v) => v,
                                    None => None,
                                };
                                Some((CompletionChunkDelta { content: c }, m2 + 1))
                            } else {
                                None
                            }
                        } else {
                            None
                        }
                    },
                    None => None,
                }
            } else {
                None
            }
        },
        None => None,
    }
}

fn choice_members(
    cs: &Vec<char>,
    i: usize,
    index: Option<usize>,
    delta: Option<CompletionChunkDelta>,
    finish: Option<Option<String>>,
) -> (r: Option<(CompletionChunkChoice, usize)>)
    requires
        i <= cs@.len(),
    ensures
        r is Some <==> spec_choice_members(
            cs@,
            i as int,
            (match index {
                Some(v) => Some(v as int),
                None => None,
            }),
            (match delta {
                Some(d) => Some(d@),
                None => None,
            }),
            opt2_view(finish),
        ) is Some,
        r matches Some(p) ==> (spec_choice_members(
            cs@,
            i as int,
            (match index {
                Some(v) => Some(v as int),
                None => None,
            }),
            (match delta {
                Some(d) => Some(d@),
                None => None,
            }),
            opt2_view(finish),
        ) matches Some(q) && p.0@ == q.0 && p.1 as int == q.1 && i < p.1 <= cs@.len()),
    decreases cs@.len() - i,
{
    if i >= cs.len() {
        return None;
    }
    if cs[i] == '}' {
        match (index, delta) {
            (Some(ix), Some(dv)) => {
                let f = match finish {
                    Some(v) => v,
                    None => None,
                };
                return Some(
                    (CompletionChunkChoice { delta: dv, index: ix, finish_reason: f }, i + 1),
                );
            },
            _ => {
                return None;
            },
        }
    }
    match parse_string(cs, i) {
        Some((key, j)) => {
            let j2 = skip_ws(cs, j);
            if j2 < cs.len() && cs[j2] == ':' {
                let k = skip_ws(cs, j2 + 1);
                let parsed: Option<
                    (Option<usize>, Option<CompletionChunkDelta>, Option<Option<String>>, usize),
                > = if key_is(&key, "index") {
                    if index.is_some() {
                        None
                    } else {
                        match parse_index(cs, k) {
                            Some((v, m)) => Some((Some(v), delta, finish, m)),
                            None => None,
                        }
                    }
                } else if key_is(&key, "delta") {
                    if delta.is_some() {
                        None
                    } else {
                        if k < cs.len() && cs[k] == '{' {
                            let k2 = skip_ws(cs, k + 1);
                            if k < k2 && k2 <= cs.len() {
                                match delta_members(cs, k2, None) {
                                    Some((dv, m)) => Some((index, Some(dv), finish, m)),
                                    None => None,
                                }
                            } else {
                                None
                            }
                        } else {
                            None
                        }
                    }
                } else if key_is(&key, "finish_reason") {
                    if finish.is_some() {
                        None
                    } else {
                        match opt_string(cs, k) {
                            Some((v, m)) => Some((index, delta, Some(v), m)),
                            None => None,
                        }
                    }
                } else {
                    match skip_value(cs, k) {
                        Some(m) => Some((index, delta, finish, m)),
                        None => None,
                    }
                };
                match parsed {
                    Some((index2, delta2, finish2, m)) => {
                        if m <= cs.len() {
                            let m2 = skip_ws(cs, m);
                            if m2 < cs.len() && cs[m2] == ',' {
                                let n = skip_ws(cs, m2 + 1);
                                if i < n && n <= cs.len() && !(n < cs.len() && cs[n] == '}') {
                                    choice_members(cs, n, index2, delta2, finish2)
                                } else {
                                    None
                                }
                            } else if m2 < cs.len() && cs[m2] == '}' {
                                match (index2, delta2) {
                                    (Some(ix), Some(dv)) => {
                                        let f = match finish2 {
                                            Some(v) => v,
                                            None => None,
                                        };
                                        Some(
                                            (
                                                CompletionChunkChoice {
                                                    delta: dv,
                                                    index: ix,
                                                    finish_reason: f,
                                                },
                                                m2 + 1,
                                            ),
                                        )
                                    },
                                    _ => None,
                                }
                            } else {
                                None
                            }
                        } else {
                            None
                        }
                    },
                    None => None,
                }
            } else {
                None
            }
        },
        None => None,
    }
}

fn choices_elements(cs: &Vec<char>, i: usize, acc: Vec<CompletionChunkChoice>) -> (r: Option<
    (Vec<CompletionChunkChoice>, usize),
>)
    requires
        i <= cs@.len(),
    ensures
        r is Some <==> spec_choices_elements(cs@, i as int, choices_view(acc@)) is Some,
        r matches Some(p) ==> (spec_choices_elements(cs@, i as int, choices_view(acc@))
            matches Some(q) && choices_view(p.0@) == q.0 && p.1 as int == q.1 && i < p.1
            <= cs@.len()),
    decreases cs@.len() - i,
{
    if i >= cs.len() {
        return None;
    }
    if cs[i] == ']' {
        return Some((acc, i + 1));
    }
    if cs[i] == '{' {
        let j = skip_ws(cs, i + 1);
        if i < j && j <= cs.len() {
            match choice_members(cs, j, None, None, None) {
                Some((cv, m)) => {
                    if i < m && m <= cs.len() {
                        let m2 = skip_ws(cs, m);
                        if m2 < cs.len() && cs[m2] == ',' {
                            let n = skip_ws(cs, m2 + 1);
                            if i < n && n <= cs.len() && !(n < cs.len() && cs[n] == ']') {
                                let ghost prev = choices_view(acc@);
                                let ghost cvv = cv@;
                                let mut acc2 = acc;
                                acc2.push(cv);
                                proof {
                                    assert(choices_view(acc2@) =~= prev.push(cvv));
                                }
                                choices_elements(cs, n, acc2)
                            } else {
                                None
                            }
                        } else if m2 < cs.len() && cs[m2] == ']' {
                            let ghost prev = choices_view(acc@);
                            let ghost cvv = cv@;
                            let mut acc2 = acc;
                            acc2.push(cv);
                            proof {
                                assert(choices_view(acc2@) =~= prev.push(cvv));
                            }
                            Some((acc2, m2 + 1))
                        } else {
                            None
                        }
                    } else {
                        None
                    }
                },
                None => None,
            }
        } else {
            None
        }
    } else {
        None
    }
}

fn chunk_members(
    cs: &Vec<char>,
    i: usize,
    id: Option<String>,
    object: Option<String>,
    created: Option<i64>,
    model: Option<String>,
    choices: Option<Vec<CompletionChunkChoice>>,
) -> (r: Option<(CompletionChunkResponse, usize)>)
    requires
        i <= cs@.len(),
    ensures
        r is Some <==> spec_chunk_members(
            cs@,
            i as int,
            opt_str_view(id),
            opt_str_view(object),
            (match created {
                Some(v) => Some(v as int),
                None => None,
            }),
            opt_str_view(model),
            (match choices {
                Some(v) => Some(choices_view(v@)),
                None => None,
            }),
        ) is Some,
        r matches Some(p) ==> (spec_chunk_members(
            cs@,
            i as int,
            opt_str_view(id),
            opt_str_view(object),
            (match created {
                Some(v) => Some(v as int),
                None => None,
            }),
            opt_str_view(model),
            (match choices {
                Some(v) => Some(choices_view(v@)),
                None => None,
            }),
        ) matches Some(q) && p.0@ == q.0 && p.1 as int == q.1 && i < p.1 <= cs@.len()),
    decreases cs@.len() - i,
{
    if i >= cs.len() {
        return None;
    }
    if cs[i] == '}' {
        match (id, object, created, model, choices) {
            (Some(idv), Some(objv), Some(crv), Some(mov), Some(chv)) => {
                return Some(
                    (
                        CompletionChunkResponse {
                            id: idv,
                            object: objv,
                            created: crv,
                            model: mov,
                            choices: chv,
                        },
                        i + 1,
                    ),
                );
            },
            _ => {
                return None;
            },
        }
    }
    match parse_string(cs, i) {
        Some((key, j)) => {
            let j2 = skip_ws(cs, j);
            if j2 < cs.len() && cs[j2] == ':' {
                let k = skip_ws(cs, j2 + 1);
                let parsed: Option<
                    (
                        Option<String>,
                        Option<String>,
                        Option<i64>,
                        Option<String>,
                        Option<Vec<CompletionChunkChoice>>,
                        usize,
                    ),
                > = if key_is(&key, "id") {
                    if id.is_some() {
                        None
                    } else {
                        match parse_string(cs, k) {
                            Some((v, m)) => Some((Some(v), object, created, model, choices, m)),
                            None => None,
                        }
                    }
                } else if key_is(&key, "object") {
                    if object.is_some() {
                        None
                    } else {
                        match parse_string(cs, k) {
                            Some((v, m)) => Some((id, Some(v), created, model, choices, m)),
                            None => None,
                        }
                    }
                } else if key_is(&key, "created") {
                    if created.is_some() {
                        None
                    } else {
                        match parse_created(cs, k) {
                            Some((v, m)) => Some((id, object, Some(v), model, choices, m)),
                            None => None,
                        }
                    }
                } else if key_is(&key, "model") {
                    if model.is_some() {
                        None
                    } else {
                        match parse_string(cs, k) {
                            Some((v, m)) => Some((id, object, created, Some(v), choices, m)),
                            None => None,
                        }
                    }
                } else if key_is(&key, "choices") {
                    if choices.is_some() {
                        None
                    } else {
                        if k < cs.len() && cs[k] == '[' {
                            let k2 = skip_ws(cs, k + 1);
                            if k < k2 && k2 <= cs.len() {
                                let empty: Vec<CompletionChunkChoice> = Vec::new();
                                proof {
                                    assert(choices_view(empty@) =~= Seq::<ChoiceView>::empty());
                                }
                                match choices_elements(cs, k2, empty) {
                                    Some((cvs, m)) => Some(
                                        (id, object, created, model, Some(cvs), m),
                                    ),
                                    None => None,
                                }
                            } else {
                                None
                            }
                        } else {
                            None
                        }
                    }
                } else {
                    match skip_value(cs, k) {
                        Some(m) => Some((id, object, created, model, choices, m)),
                        None => None,
                    }
                };
                match parsed {
                    Some((id2, object2, created2, model2, choices2, m)) => {
                        if m <= cs.len() {
                            let m2 = skip_ws(cs, m);
                            if m2 < cs.len() && cs[m2] == ',' {
                                let n = skip_ws(cs, m2 + 1);
                                if i < n && n <= cs.len() && !(n < cs.len() && cs[n] == '}') {
                                    chunk_members(cs, n, id2, object2, created2, model2, choices2)
                                } else {
                                    None
                                }
                            } else if m2 < cs.len() && cs[m2] == '}' {
                                match (id2, object2, created2, model2, choices2) {
                                    (Some(idv), Some(objv), Some(crv), Some(mov), Some(chv)) => {
                                        Some(
                                            (
                                                CompletionChunkResponse {
                                                    id: idv,
                                                    object: objv,
                                                    created: crv,
                                                    model: mov,
                                                    choices: chv,
                                                },
                                                m2 + 1,
                                            ),
                                        )
                                    },
                                    _ => None,
                                }
                            } else {
                                None
                            }
                        } else {
                            None
                        }
                    },
                    None => None,
                }
            } else {
                None
            }
        },
        None => None,
    }
}

/// Decodes one data payload into a chunk, or reports the payload as
/// malformed: the result is a chunk exactly when the payload satisfies the
/// grammar [`spec_chunk`], and it is that chunk.
pub fn decode_chunk(data: &str) -> (r: Result<CompletionChunkResponse, DecodeError>)
    ensures
        r is Ok <==> spec_chunk(data@) is Some,
        r matches Ok(c) ==> spec_chunk(data@) == Some(c@),
        r matches Err(e) ==> e.payload@ == data@,
{
    let cs = str_chars(data);
    let i = skip_ws(&cs, 0);
    if i < cs.len() && cs[i] == '{' {
        let j = skip_ws(&cs, i + 1);
        match chunk_members(&cs, j, None, None, None, None, None) {
            Some((chunk, k)) => {
                let m = skip_ws(&cs, k);
                if m == cs.len() {
                    Ok(chunk)
                } else {
                    Err(DecodeError { payload: data.to_owned() })
                }
            },
            None => Err(DecodeError { payload: data.to_owned() }),
        }
    } else {
        Err(DecodeError { payload: data.to_owned() })
    }
}

// ---------------------------------------------------------------------------
// Raw events and their classification
// ---------------------------------------------------------------------------

/// One event delivered by the underlying transport: the connection opened, a
/// data message with its raw text payload, or a terminal transport failure
/// with its diagnostic text.
#[derive(Debug)]
pub enum RawEvent {
    Opened,
    Message(String),
    Failed(String),
}

pub enum EventView {
    Opened,
    Message(Seq<char>),
    Failed(Seq<char>),
}

impl View for RawEvent {
    type V = EventView;

    open spec fn view(&self) -> EventView {
        match self {
            RawEvent::Opened => EventView::Opened,
            RawEvent::Message(d) => EventView::Message(d@),
            RawEvent::Failed(m) => EventView::Failed(m@),
        }
    }
}

/// The literal payload that signals clean termination; it is checked for
/// before any decode is attempted.
pub open spec fn spec_sentinel() -> Seq<char> {
    "[DONE]"@
}

/// Whether a payload is the termination sentinel.
pub fn is_sentinel(data: &String) -> (b: bool)
    ensures
        b == (data@ == spec_sentinel()),
{
    let done = String::from_str("[DONE]");
    data.eq(&done)
}

/// What the classifier says of one raw event: skip it without a
/// caller-visible item, end the stream cleanly, hand the payload to the
/// decoder, or surface a transport failure.
#[derive(Debug)]
pub enum ClassifiedEvent {
    Ignored,
    CleanEnd,
    Data(String),
    Failure(String),
}

pub enum ClassView {
    Ignored,
    CleanEnd,
    Data(Seq<char>),
    Failure(Seq<char>),
}

impl View for ClassifiedEvent {
    type V = ClassView;

    open spec fn view(&self) -> ClassView {
        match self {
            ClassifiedEvent::Ignored => ClassView::Ignored,
            ClassifiedEvent::CleanEnd => ClassView::CleanEnd,
            ClassifiedEvent::Data(d) => ClassView::Data(d@),
            ClassifiedEvent::Failure(m) => ClassView::Failure(m@),
        }
    }
}

pub open spec fn spec_classify(ev: EventView) -> ClassView {
    match ev {
        EventView::Opened => ClassView::Ignored,
        EventView::Message(d) => if d == spec_sentinel() {
            ClassView::CleanEnd
        } else {
            ClassView::Data(d)
        },
        EventView::Failed(m) => ClassView::Failure(m),
    }
}

/// Pure classification of one raw event, with no side effect: an `Opened`
/// event is ignored, a message equal to the sentinel ends the stream, any
/// other message is data for the decoder, and a failure is surfaced.
pub fn classify_event(ev: RawEvent) -> (c: ClassifiedEvent)
    ensures
        c@ == spec_classify(ev@),
{
    match ev {
        RawEvent::Opened => ClassifiedEvent::Ignored,
        RawEvent::Message(d) => {
            if is_sentinel(&d) {
                ClassifiedEvent::CleanEnd
            } else {
                ClassifiedEvent::Data(d)
            }
        },
        RawEvent::Failed(m) => ClassifiedEvent::Failure(m),
    }
}

// ---------------------------------------------------------------------------
// The stream controller state machine
// ---------------------------------------------------------------------------

/// An error yielded as the final item of the stream: the payload of a data
/// message that did not decode, or the diagnostic text of a transport
/// failure. Either is terminal.
#[derive(Debug, Clone)]
pub enum StreamError {
    Decode(String),
    Transport(String),
}

pub enum ErrorView {
    Decode(Seq<char>),
    Transport(Seq<char>),
}

impl View for StreamError {
    type V = ErrorView;

    open spec fn view(&self) -> ErrorView {
        match self {
            StreamError::Decode(d) => ErrorView::Decode(d@),
            StreamError::Transport(m) => ErrorView::Transport(m@),
        }
    }
}

/// What one poll of the controller tells the caller: poll the transport
/// again (nothing to yield yet), yield one decoded chunk, yield one terminal
/// error, or end of sequence.
#[derive(Debug)]
pub enum StepOutcome {
    Continue,
    Yield(CompletionChunkResponse),
    Fail(StreamError),
    Finished,
}

pub enum OutcomeView {
    Continue,
    Yield(ChunkView),
    Fail(ErrorView),
    Finished,
}

impl View for StepOutcome {
    type V = OutcomeView;

    open spec fn view(&self) -> OutcomeView {
        match self {
            StepOutcome::Continue => OutcomeView::Continue,
            StepOutcome::Yield(c) => OutcomeView::Yield(c@),
            StepOutcome::Fail(e) => OutcomeView::Fail(e@),
            StepOutcome::Finished => OutcomeView::Finished,
        }
    }
}

pub struct TransitionView {
    pub active: bool,
    pub outcome: OutcomeView,
    pub close: bool,
}

pub open spec fn ev_opt_view(ev: Option<RawEvent>) -> Option<EventView> {
    match ev {
        Some(e) => Some(e@),
        None => None,
    }
}

/// The transition table of the controller, on one poll: the next state,
/// the outcome handed to the caller, and whether the underlying transport is
/// to be closed now. A closed controller is absorbing: every further poll
/// finishes at once, with no close instruction.
pub open spec fn spec_step(active: bool, ev: Option<EventView>) -> TransitionView {
    if !active {
        TransitionView { active: false, outcome: OutcomeView::Finished, close: false }
    } else {
        match ev {
            None => TransitionView { active: false, outcome: OutcomeView::Finished, close: false },
            Some(EventView::Opened) => TransitionView {
                active: true,
                outcome: OutcomeView::Continue,
                close: false,
            },
            Some(EventView::Message(d)) => if d == spec_sentinel() {
                TransitionView { active: false, outcome: OutcomeView::Finished, close: true }
            } else {
                match spec_chunk(d) {
                    Some(c) => TransitionView {
                        active: true,
                        outcome: OutcomeView::Yield(c),
                        close: false,
                    },
                    None => TransitionView {
                        active: false,
                        outcome: OutcomeView::Fail(ErrorView::Decode(d)),
                        close: true,
                    },
                }
            },
            Some(EventView::Failed(m)) => TransitionView {
                active: false,
                outcome: OutcomeView::Fail(ErrorView::Transport(m)),
                close: true,
            },
        }
    }
}

/// The lifecycle of the stream: `Active` until a terminal transition, then
/// `Closed` for good.
#[derive(Debug, Clone, Copy, PartialEq, Eq, Structural)]
pub enum StreamState {
    Active,
    Closed,
}

/// The stream controller: a single-owner, forward-only producer of decoded
/// items. Its view is whether it is still active; once closed it stays
/// closed, whatever is fed to it.
pub struct StreamController {
    state: StreamState,
}

impl View for StreamController {
    type V = bool;

    closed spec fn view(&self) -> bool {
        self.state == StreamState::Active
    }
}

impl StreamController {
    /// A fresh controller, in the `Active` state.
    pub fn new() -> (c: Self)
        ensures
            c@ == true,
    {
        StreamController { state: StreamState::Active }
    }

    /// Whether the controller still accepts events.
    pub fn is_active(&self) -> (b: bool)
        ensures
            b == self@,
    {
        match self.state {
            StreamState::Active => true,
            StreamState::Closed => false,
        }
    }

    /// One poll: feed the next transport event (`None` when the underlying
    /// sequence is exhausted) and learn what to hand the caller and whether
    /// to close the transport now. The controller follows [`spec_step`]
    /// exactly.
    pub fn step(&mut self, event: Option<RawEvent>) -> (r: (StepOutcome, bool))
        ensures
            ({
                let t = spec_step(old(self)@, ev_opt_view(event));
                &&& final(self)@ == t.active
                &&& r.0@ == t.outcome
                &&& r.1 == t.close
            }),
    {
        match self.state {
            StreamState::Closed => (StepOutcome::Finished, false),
            StreamState::Active => {
                match event {
                    None => {
                        self.state = StreamState::Closed;
                        (StepOutcome::Finished, false)
                    },
                    Some(ev) => {
                        match classify_event(ev) {
                            ClassifiedEvent::Ignored => (StepOutcome::Continue, false),
                            ClassifiedEvent::CleanEnd => {
                                self.state = StreamState::Closed;
                                (StepOutcome::Finished, true)
                            },
                            ClassifiedEvent::Data(d) => {
                                match decode_chunk(d.as_str()) {
                                    Ok(chunk) => (StepOutcome::Yield(chunk), false),
                                    Err(_e) => {
                                        self.state = StreamState::Closed;
                                        (StepOutcome::Fail(StreamError::Decode(d)), true)
                                    },
                                }
                            },
                            ClassifiedEvent::Failure(m) => {
                                self.state = StreamState::Closed;
                                (StepOutcome::Fail(StreamError::Transport(m)), true)
                            },
                        }
                    },
                }
            },
        }
    }

    /// Caller-driven cancellation: closes the controller. Returns whether
    /// this call performed the close; on an already closed controller it has
    /// no effect and reports `false`, so repeated closes are harmless.
    pub fn close(&mut self) -> (was_active: bool)
        ensures
            final(self)@ == false,
            was_active == old(self)@,
    {
        match self.state {
            StreamState::Active => {
                self.state = StreamState::Closed;
                true
            },
            StreamState::Closed => false,
        }
    }
}

// ---------------------------------------------------------------------------
// Whole-run semantics and its laws
// ---------------------------------------------------------------------------

/// One caller-visible item of the decoded sequence.
pub enum ItemView {
    Chunk(ChunkView),
    Error(ErrorView),
}

/// What a whole run of the controller produces over an event sequence: the
/// items yielded, in order, and how many times the transport was closed.
pub struct RunView {
    pub items: Seq<ItemView>,
    pub closes: nat,
}

pub open spec fn events_view(evs: Seq<RawEvent>) -> Seq<EventView> {
    evs.map_values(|e: RawEvent| e@)
}

pub open spec fn items_view(items: Seq<Result<CompletionChunkResponse, StreamError>>) -> Seq<
    ItemView,
> {
    items.map_values(
        |r: Result<CompletionChunkResponse, StreamError>|
            match r {
                Ok(c) => ItemView::Chunk(c@),
                Err(e) => ItemView::Error(e@),
            },
    )
}

/// The decoded sequence produced by feeding a fresh controller the given
/// events in order, stopping at the first terminal transition; events after
/// it are never looked at. Exhausting the input ends the run with no close.
pub open spec fn spec_run(evs: Seq<EventView>) -> RunView
    decreases evs.len(),
{
    if evs.len() == 0 {
        RunView { items: Seq::empty(), closes: 0 }
    } else {
        let t = spec_step(true, Some(evs[0]));
        match t.outcome {
            OutcomeView::Continue => spec_run(evs.skip(1)),
            OutcomeView::Yield(c) => RunView {
                items: seq![ItemView::Chunk(c)] + spec_run(evs.skip(1)).items,
                closes: spec_run(evs.skip(1)).closes,
            },
            OutcomeView::Fail(e) => RunView { items: seq![ItemView::Error(e)], closes: 1 },
            OutcomeView::Finished => RunView {
                items: Seq::empty(),
                closes: if t.close {
                    1
                } else {
                    0
                },
            },
        }
    }
}

/// Over any event sequence the transport is closed at most once.
pub proof fn lemma_run_closes_at_most_once(evs: Seq<EventView>)
    ensures
        spec_run(evs).closes <= 1,
    decreases evs.len(),
{
    if evs.len() > 0 {
        lemma_run_closes_at_most_once(evs.skip(1));
    }
}

/// One unfolding of [`spec_run`]: what the run over a non-empty event
/// sequence is, by the outcome of the first transition.
proof fn lemma_run_step(evs: Seq<EventView>)
    requires
        evs.len() > 0,
    ensures
        ({
            let t = spec_step(true, Some(evs[0]));
            &&& t.outcome is Continue ==> spec_run(evs) == spec_run(evs.skip(1)) && !t.close
            &&& t.outcome matches OutcomeView::Yield(c) ==> (spec_run(evs).items == seq![
                ItemView::Chunk(c),
            ] + spec_run(evs.skip(1)).items && spec_run(evs).closes == spec_run(
                evs.skip(1),
            ).closes && !t.close)
            &&& t.outcome matches OutcomeView::Fail(e) ==> (spec_run(evs).items == seq![
                ItemView::Error(e),
            ] && spec_run(evs).closes == 1 && t.close)
            &&& t.outcome is Finished ==> (spec_run(evs).items == Seq::<ItemView>::empty()
                && spec_run(evs).closes == (if t.close {
                1nat
            } else {
                0nat
            }))
        }),
{
}

/// Feeds a whole event sequence to a fresh controller and collects what a
/// consumer of the stream would see: the yielded items in order, and the
/// number of close instructions issued. The result is exactly [`spec_run`]
/// of the events.
pub fn decode_events(events: Vec<RawEvent>) -> (r: (
    Vec<Result<CompletionChunkResponse, StreamError>>,
    u64,
))
    ensures
        items_view(r.0@) == spec_run(events_view(events@)).items,
        r.1 as nat == spec_run(events_view(events@)).closes,
        r.1 <= 1,
{
    let ghost target = spec_run(events_view(events@));
    proof {
        lemma_run_closes_at_most_once(events_view(events@));
    }
    let mut ctrl = StreamController::new();
    let mut out: Vec<Result<CompletionChunkResponse, StreamError>> = Vec::new();
    let mut closes: u64 = 0;
    let mut rest = events;
    let mut done = false;
    while !done && rest.len() > 0
        invariant
            target == spec_run(events_view(events@)),
            target.closes <= 1,
            closes <= 1,
            done ==> !ctrl@,
            ctrl@ ==> (target.items == items_view(out@) + spec_run(events_view(rest@)).items
                && target.closes == closes + spec_run(events_view(rest@)).closes),
            !ctrl@ ==> (target.items == items_view(out@) && target.closes == closes),
        decreases rest@.len(),
    {
        let ghost pre = events_view(rest@);
        let ghost was_active = ctrl@;
        let ev = rest.remove(0);
        proof {
            assert(events_view(rest@) =~= pre.skip(1));
            assert(pre[0] == ev@);
            if was_active {
                lemma_run_closes_at_most_once(pre.skip(1));
                lemma_run_step(pre);
            }
        }
        let (outcome, do_close) = ctrl.step(Some(ev));
        if do_close {
            closes = closes + 1;
        }
        match outcome {
            StepOutcome::Continue => {},
            StepOutcome::Yield(c) => {
                let ghost prev_items = items_view(out@);
                let ghost cv = c@;
                out.push(Ok(c));
                proof {
                    assert(items_view(out@) =~= prev_items.push(ItemView::Chunk(cv)));
                    assert(prev_items + (seq![ItemView::Chunk(cv)] + spec_run(
                        events_view(rest@),
                    ).items) =~= items_view(out@) + spec_run(events_view(rest@)).items);
                }
            },
            StepOutcome::Fail(e) => {
                let ghost prev_items = items_view(out@);
                let ghost evw = e@;
                out.push(Err(e));
                done = true;
                proof {
                    assert(items_view(out@) =~= prev_items.push(ItemView::Error(evw)));
                    assert(prev_items + seq![ItemView::Error(evw)] =~= items_view(out@));
                }
            },
            StepOutcome::Finished => {
                done = true;
                proof {
                    assert(items_view(out@) + Seq::<ItemView>::empty() =~= items_view(out@));
                }
            },
        }
    }
    proof {
        if ctrl@ {
            assert(events_view(rest@) =~= Seq::<EventView>::empty());
            assert(items_view(out@) + spec_run(events_view(rest@)).items =~= items_view(out@));
        }
    }
    (out, closes)
}

/// Leading `Opened` events are skipped without a caller-visible item: the
/// run over a sequence that begins with any number of them equals the run
/// over the remainder.
pub proof fn lemma_opened_prefix_skipped(evs: Seq<EventView>, n: int)
    requires
        0 <= n <= evs.len(),
        forall|k: int| 0 <= k < n ==> evs[k] is Opened,
    ensures
        spec_run(evs) == spec_run(evs.skip(n)),
    decreases n,
{
    if n > 0 {
        assert(spec_run(evs) == spec_run(evs.skip(1)));
        lemma_opened_prefix_skipped(evs.skip(1), n - 1);
        assert(evs.skip(1).skip(n - 1) =~= evs.skip(n));
    } else {
        assert(evs.skip(0) =~= evs);
    }
}

/// A run whose first event is a data message yields for that message alone:
/// exactly one chunk and the rest of the run if it decodes, end of stream
/// with one close if it is the sentinel, exactly one decode error and one
/// close if it is malformed.
pub proof fn lemma_first_message_decides(evs: Seq<EventView>, d: Seq<char>)
    requires
        evs.len() > 0,
        evs[0] == EventView::Message(d),
    ensures
        d == spec_sentinel() ==> spec_run(evs) == (RunView {
            items: Seq::<ItemView>::empty(),
            closes: 1,
        }),
        (d != spec_sentinel() && spec_chunk(d) is Some) ==> spec_run(evs) == (RunView {
            items: seq![ItemView::Chunk(spec_chunk(d)->Some_0)] + spec_run(evs.skip(1)).items,
            closes: spec_run(evs.skip(1)).closes,
        }),
        (d != spec_sentinel() && spec_chunk(d) is None) ==> spec_run(evs) == (RunView {
            items: seq![ItemView::Error(ErrorView::Decode(d))],
            closes: 1,
        }),
{
}

/// A malformed payload (not the sentinel) at the head of the stream gives
/// exactly one decode error carrying that payload, the stream ends, and the
/// transport is closed exactly once; later events are never processed.
pub proof fn lemma_malformed_payload_terminal(evs: Seq<EventView>, d: Seq<char>)
    requires
        evs.len() > 0,
        evs[0] == EventView::Message(d),
        d != spec_sentinel(),
        spec_chunk(d) is None,
    ensures
        spec_run(evs).items =~= seq![ItemView::Error(ErrorView::Decode(d))],
        spec_run(evs).closes == 1,
{
}

/// A transport failure at the head of the stream gives exactly one transport
/// error carrying its diagnostic, the stream ends, and the transport is
/// closed exactly once; later events are never processed.
pub proof fn lemma_transport_failure_terminal(evs: Seq<EventView>, m: Seq<char>)
    requires
        evs.len() > 0,
        evs[0] == EventView::Failed(m),
    ensures
        spec_run(evs).items =~= seq![ItemView::Error(ErrorView::Transport(m))],
        spec_run(evs).closes == 1,
{
}

/// Whether every event of a sequence is a data message whose payload is not
/// the sentinel and decodes into a chunk.
pub open spec fn all_decodable_messages(evs: Seq<EventView>) -> bool {
    forall|k: int|
        0 <= k < evs.len() ==> (#[trigger] evs[k] matches EventView::Message(d)
            && d != spec_sentinel() && spec_chunk(d) is Some)
}

/// The chunk stood for by one event, under [`all_decodable_messages`].
pub open spec fn chunk_of_event(ev: EventView) -> ItemView {
    match ev {
        EventView::Message(d) => ItemView::Chunk(spec_chunk(d)->Some_0),
        _ => ItemView::Chunk(ChunkView { id: Seq::empty(), object: Seq::empty(), created: 0, model: Seq::empty(), choices: Seq::empty() }),
    }
}

/// A payload sequence of decodable messages closed by the sentinel yields
/// exactly the chunks of those messages, in order — the last item is the one
/// preceding the sentinel — then ends with no error item and one close.
pub proof fn lemma_sentinel_ends_cleanly(evs: Seq<EventView>)
    requires
        evs.len() > 0,
        evs[evs.len() - 1] == EventView::Message(spec_sentinel()),
        all_decodable_messages(evs.take(evs.len() - 1)),
    ensures
        spec_run(evs).items =~= evs.take(evs.len() - 1).map_values(
            |e: EventView| chunk_of_event(e),
        ),
        spec_run(evs).closes == 1,
        forall|k: int| 0 <= k < spec_run(evs).items.len() ==> spec_run(evs).items[k] is Chunk,
    decreases evs.len(),
{
    let head = evs.take(evs.len() - 1);
    if evs.len() == 1 {
        assert(spec_run(evs).items =~= head.map_values(|e: EventView| chunk_of_event(e)));
    } else {
        assert(head[0] matches EventView::Message(d) && d != spec_sentinel() && spec_chunk(
            d,
        ) is Some) by {
            assert(all_decodable_messages(head));
        }
        let tail = evs.skip(1);
        assert(tail[tail.len() - 1] == EventView::Message(spec_sentinel()));
        assert(all_decodable_messages(tail.take(tail.len() - 1))) by {
            assert(forall|k: int|
                0 <= k < tail.len() - 1 ==> #[trigger] tail.take(tail.len() - 1)[k] == head[k
                    + 1]);
        }
        lemma_sentinel_ends_cleanly(tail);
        assert(spec_run(evs).items =~= head.map_values(|e: EventView| chunk_of_event(e))) by {
            assert(tail.take(tail.len() - 1) =~= head.skip(1));
            assert(spec_run(tail).items =~= head.skip(1).map_values(
                |e: EventView| chunk_of_event(e),
            ));
        }
    }
}

/// Closing is idempotent at the level of the transition table: a closed
/// controller is absorbing — every further poll finishes at once, changes
/// nothing, and never instructs another close, whatever event arrives.
pub proof fn lemma_closed_is_absorbing(ev: Option<EventView>)
    ensures
        spec_step(false, ev) == (TransitionView {
            active: false,
            outcome: OutcomeView::Finished,
            close: false,
        }),
{
}

} // verus!
