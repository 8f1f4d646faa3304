//! The table of results shown when a chain ends: one row per step that ran,
//! in the chain's order, with long replies cut.
use vstd::prelude::*;
use vstd::utf8::*;

use crate::chain::config::{ChainConfig, StepModel};
use crate::chain::memory::{lookup, Memory};
use crate::strings::{substr, utf8};

verus! {

broadcast use encode_utf8_valid_utf8;

/// What `textwrap::fill` makes of `text` at `width` columns: the text's
/// words laid out in lines no wider than that.
pub uninterp spec fn filled(text: Seq<char>, width: usize) -> Seq<char>;

/// `textwrap::fill(text, width)`, with the default options for that width.
/// The layout is the crate's and is only named.
#[verifier::external_body]
fn fill(text: &str, width: usize) -> (r: String)
    ensures
        r@ == filled(text@, width),
{
    textwrap::fill(text, width)
}

/// Replies longer than this many bytes are cut.
pub open spec fn shown_limit() -> int {
    500
}

/// How a reply is shown: laid out at 100 columns; one over 500 bytes has its
/// first 497 bytes laid out, then `...`.
pub open spec fn shown_result(text: Seq<char>) -> Seq<char> {
    if utf8(text).len() > shown_limit() {
        filled(decode_utf8(utf8(text).subrange(0, 497)), 100) + "..."@
    } else {
        filled(text, 100)
    }
}

/// A reply can be shown: it is short, or its cut falls on a char boundary.
pub open spec fn showable(text: Seq<char>) -> bool {
    utf8(text).len() > shown_limit() ==> is_char_boundary(utf8(text), 497)
}

/// The rows for the first `n` steps: each step with a result, its name and
/// the result as shown.
pub open spec fn result_rows_spec(
    steps: Seq<StepModel>,
    results: Seq<(Seq<char>, Seq<char>)>,
    n: int,
) -> Seq<(Seq<char>, Seq<char>)>
    decreases n,
{
    if n <= 0 {
        Seq::empty()
    } else {
        let rest = result_rows_spec(steps, results, n - 1);
        match lookup(results, steps[n - 1].id) {
            Some(t) => rest.push((steps[n - 1].id, shown_result(t))),
            None => rest,
        }
    }
}

/// The rows of the results table: the steps that have a result, in the
/// chain's order, each with its result as shown. Every such result must be
/// showable (cutting inside a char would fail).
pub fn result_rows(results: &Memory, config: &ChainConfig) -> (rows: Vec<(String, String)>)
    requires
        forall|i: int|
            0 <= i < config.steps@.len() ==> match lookup(
                results@,
                #[trigger] config.steps_view()[i].id,
            ) {
                Some(t) => showable(t),
                None => true,
            },
    ensures
        rows@.map_values(|r: (String, String)| (r.0@, r.1@)) == result_rows_spec(
            config.steps_view(),
            results@,
            config.steps@.len() as int,
        ),
{
    let ghost steps = config.steps_view();
    let mut rows: Vec<(String, String)> = Vec::new();
    let mut i: usize = 0;
    while i < config.steps.len()
        invariant
            0 <= i <= config.steps@.len(),
            steps == config.steps_view(),
            steps.len() == config.steps@.len(),
            forall|j: int|
                0 <= j < config.steps@.len() ==> match lookup(results@, #[trigger] steps[j].id) {
                    Some(t) => showable(t),
                    None => true,
                },
            rows@.map_values(|r: (String, String)| (r.0@, r.1@)) == result_rows_spec(
                steps,
                results@,
                i as int,
            ),
        decreases config.steps.len() - i,
    {
        let step = &config.steps[i];
        assert(steps[i as int] == step@);
        assert(steps[i as int].id == step.id@);
        let ghost before = rows@;
        match results.get(step.id.as_str()) {
            Some(result) => {
                let len = result.as_str().as_bytes().len();
                assert(len == utf8(result@).len());
                let shown = if len > 500 {
                    assert(showable(result@));
                    proof {
                        is_char_boundary_start_end_of_seq(utf8(result@));
                    }
                    let head = substr(result.as_str(), 0, 497);
                    let mut s = fill(head, 100);
                    s.append("...");
                    s
                } else {
                    fill(result.as_str(), 100)
                };
                rows.push((step.id.clone(), shown));
                assert(rows@.map_values(|r: (String, String)| (r.0@, r.1@)) =~= before.map_values(
                    |r: (String, String)| (r.0@, r.1@),
                ).push((steps[i as int].id, shown_result(result@))));
            },
            None => {},
        }
        i = i + 1;
    }
    rows
}

} // verus!
