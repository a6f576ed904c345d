//! The librarian's texts: the prompt that asks a language model to assess
//! a governance contribution, the body of the request that carries it, and
//! the reading of the answer's text.

use vstd::prelude::*;
use crate::json::{Json, JsonNumber, JsonV, NumberV, jv, jv_list, jv_members, lookup, member, json_text, member_of, lemma_jv_list, lemma_jv_members};
use crate::text::{cat, join, seq_join, views};

verus! {

/// The part of the prompt before the contribution's title.
pub open spec fn prompt_intro() -> Seq<char> {
    "You are the Farga librarian for the Occitan multi-agent system. You assess governance contributions to determine their reversibility, impact scope, and routing level.\n\nContribution title: "@
}

/// The part of the prompt after the involved projects: the answer format
/// and the definitions of the levels.
pub open spec fn prompt_outro() -> Seq<char> {
    "\n\nRespond ONLY with a JSON object, no markdown:\n{\n  \"reversibility\": \"FullyReversible\"|\"EffectsLinger\"|\"CostlyReversible\"|\"Irreversible\",\n  \"impact\": \"Contained\"|\"CrossProject\"|\"DomainWide\"|\"OrgWide\",\n  \"routing\": \"ProjectLevel\"|\"InitiativeLevel\"|\"OrgLevel\",\n  \"notes\": \"one sentence explaining your assessment\"\n}\n\nDefinitions:\n- FullyReversible: decision can be undone with no lasting effects\n- EffectsLinger: reversible but some effects persist (e.g. learned behaviors, written docs)\n- CostlyReversible: reversible but requires significant rework\n- Irreversible: cannot be undone (e.g. data deletion, published decisions)\n- Contained: affects only one project\n- CrossProject: affects 2-3 specific projects\n- DomainWide: affects an entire domain/team\n- OrgWide: affects the entire organization"@
}

/// The prompt for a contribution: its title, narrative, lessons (joined by
/// `; `) and involved projects (joined by `, `) set into the template.
pub open spec fn prompt_text(
    title: Seq<char>,
    narrative: Seq<char>,
    lessons: Seq<Seq<char>>,
    projects: Seq<Seq<char>>,
) -> Seq<char> {
    prompt_intro() + title + "\nNarrative: "@ + narrative + "\nLessons learned: "@ + seq_join(lessons, "; "@)
        + "\nInvolved projects: "@ + seq_join(projects, ", "@) + prompt_outro()
}

/// The prompt that asks for an assessment of a contribution (see
/// `prompt_text`).
pub fn librarian_prompt(title: &str, narrative: &str, lessons: &Vec<String>, projects: &Vec<String>) -> (r: String)
    ensures
        r@ == prompt_text(title@, narrative@, views(lessons@), views(projects@)),
{
    let intro = "You are the Farga librarian for the Occitan multi-agent system. You assess governance contributions to determine their reversibility, impact scope, and routing level.\n\nContribution title: ";
    let outro = "\n\nRespond ONLY with a JSON object, no markdown:\n{\n  \"reversibility\": \"FullyReversible\"|\"EffectsLinger\"|\"CostlyReversible\"|\"Irreversible\",\n  \"impact\": \"Contained\"|\"CrossProject\"|\"DomainWide\"|\"OrgWide\",\n  \"routing\": \"ProjectLevel\"|\"InitiativeLevel\"|\"OrgLevel\",\n  \"notes\": \"one sentence explaining your assessment\"\n}\n\nDefinitions:\n- FullyReversible: decision can be undone with no lasting effects\n- EffectsLinger: reversible but some effects persist (e.g. learned behaviors, written docs)\n- CostlyReversible: reversible but requires significant rework\n- Irreversible: cannot be undone (e.g. data deletion, published decisions)\n- Contained: affects only one project\n- CrossProject: affects 2-3 specific projects\n- DomainWide: affects an entire domain/team\n- OrgWide: affects the entire organization";
    let l = join(lessons, "; ");
    let p = join(projects, ", ");
    let a = cat(intro, title);
    let b = cat(a.as_str(), "\nNarrative: ");
    let c = cat(b.as_str(), narrative);
    let d = cat(c.as_str(), "\nLessons learned: ");
    let e = cat(d.as_str(), l.as_str());
    let f = cat(e.as_str(), "\nInvolved projects: ");
    let g = cat(f.as_str(), p.as_str());
    cat(g.as_str(), outro)
}

/// The body of the request that sends `prompt` to `model`: the model, a
/// limit of 256 tokens and one user message.
pub open spec fn request_body_v(model: Seq<char>, prompt: Seq<char>) -> JsonV {
    JsonV::Object(
        seq![
            ("model"@, JsonV::Str(model)),
            ("max_tokens"@, JsonV::Number(NumberV::PosInt(256))),
            (
                "messages"@,
                JsonV::Array(
                    seq![JsonV::Object(seq![("role"@, JsonV::Str("user"@)), ("content"@, JsonV::Str(prompt))])],
                ),
            ),
        ],
    )
}

/// See `request_body_v`.
pub fn request_body(model: &str, prompt: String) -> (j: Json)
    ensures
        jv(j) == request_body_v(model@, prompt@),
{
    let ghost pv = prompt@;
    let msg = vec![member_of("role", json_text("user")), member_of("content", Json::Str(prompt))];
    proof {
        lemma_jv_members(msg@);
        assert(jv_members(msg@) =~= seq![("role"@, JsonV::Str("user"@)), ("content"@, JsonV::Str(pv))]);
    }
    let ghost mv = jv(Json::Object(msg));
    let msgs = vec![Json::Object(msg)];
    proof {
        lemma_jv_list(msgs@);
        assert(jv_list(msgs@) =~= seq![mv]);
    }
    let ghost av = jv(Json::Array(msgs));
    let top = vec![
        member_of("model", json_text(model)),
        member_of("max_tokens", Json::Number(JsonNumber::PosInt(256))),
        member_of("messages", Json::Array(msgs)),
    ];
    proof {
        lemma_jv_members(top@);
        assert(jv_members(top@) =~= seq![
            ("model"@, JsonV::Str(model@)),
            ("max_tokens"@, JsonV::Number(NumberV::PosInt(256))),
            ("messages"@, av),
        ]);
    }
    Json::Object(top)
}

/// The text of a model answer: the string `text` of the first item of its
/// `content` array, if the answer has that shape.
pub open spec fn answer_text(resp: Json) -> Option<Seq<char>> {
    match lookup(resp, "content"@) {
        Some(Json::Array(items)) => if items@.len() > 0 {
            match lookup(items@[0], "text"@) {
                Some(Json::Str(t)) => Some(t@),
                _ => None,
            }
        } else {
            None
        },
        _ => None,
    }
}

/// See `answer_text`.
pub fn response_text(resp: &Json) -> (r: Option<String>)
    ensures
        match r {
            Some(t) => answer_text(*resp) == Some(t@),
            None => answer_text(*resp) is None,
        },
{
    match member(resp, "content") {
        Some(Json::Array(items)) => {
            if items.len() > 0 {
                match member(&items[0], "text") {
                    Some(Json::Str(t)) => Some(t.clone()),
                    _ => None,
                }
            } else {
                None
            }
        },
        _ => None,
    }
}

} // verus!
