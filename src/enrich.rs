//! The enrichment engine's own logic: the prompts sent to the language model,
//! and the tolerant reading of its reply into a summary and keywords.
use vstd::prelude::*;

use crate::pattern::{group_one_of_matches, pattern_groups};
use crate::records::{opt_text, texts};
use crate::text::{
    all_whitespace, chars_of, is_blank, prefix,
    push_chars, slice_chars, split_chars, split_on, string_of, trim, trim_chars,
};

verus! {

// ---------------------------------------------------------------- keywords

/// Characters stripped from both ends of each keyword.
pub open spec fn is_wrapper(c: char) -> bool {
    c == '"' || c == '}' || c == '\n'
}

pub open spec fn strip_wrappers_start(s: Seq<char>) -> Seq<char>
    decreases s.len(),
{
    if s.len() > 0 && is_wrapper(s[0]) {
        strip_wrappers_start(s.drop_first())
    } else {
        s
    }
}

pub open spec fn strip_wrappers_end(s: Seq<char>) -> Seq<char>
    decreases s.len(),
{
    if s.len() > 0 && is_wrapper(s.last()) {
        strip_wrappers_end(s.drop_last())
    } else {
        s
    }
}

/// A piece of the keyword list made into a keyword: whitespace trimmed, then
/// quotes, braces and newlines stripped from both ends.
pub open spec fn clean_keyword(s: Seq<char>) -> Seq<char> {
    strip_wrappers_end(strip_wrappers_start(trim(s)))
}

/// The cleaned pieces that are not empty, in order.
pub open spec fn keywords_of(pieces: Seq<Seq<char>>) -> Seq<Seq<char>>
    decreases pieces.len(),
{
    if pieces.len() == 0 {
        Seq::empty()
    } else {
        let before = keywords_of(pieces.drop_last());
        let k = clean_keyword(pieces.last());
        if k.len() > 0 {
            before.push(k)
        } else {
            before
        }
    }
}

/// The summary in a reply: the quoted text after `"summary":` and whitespace.
pub const SUMMARY_PATTERN: &'static str = "\"summary\":\\s*\"([^\"]*)\"";

/// The keyword list in a reply: what follows `"keywords":`, whitespace and an
/// optional bracket, up to a closing brace or bracket.
pub const KEYWORDS_PATTERN: &'static str = "\"keywords\":\\s*\\[?([^}\\]]*)\\]?";

/// Group 1 of the first match, if there is one.
pub open spec fn first_group(g: Option<Seq<Option<Seq<char>>>>) -> Option<Seq<char>> {
    match g {
        Some(gs) => if gs.len() > 0 {
            gs[0]
        } else {
            None
        },
        None => None,
    }
}

/// The summary of a reply; empty when the reply has none.
pub open spec fn reply_summary(s: Seq<char>) -> Seq<char> {
    match first_group(pattern_groups(SUMMARY_PATTERN@, s)) {
        Some(t) => t,
        None => Seq::empty(),
    }
}

/// The keywords of a reply: the pieces of its keyword list between commas,
/// cleaned, the empty ones dropped.
pub open spec fn reply_keywords(s: Seq<char>) -> Seq<Seq<char>> {
    match first_group(pattern_groups(KEYWORDS_PATTERN@, s)) {
        Some(c) => keywords_of(split_on(c, ',')),
        None => Seq::empty(),
    }
}

proof fn lemma_strip_start_skip(s: Seq<char>, i: int)
    requires
        0 <= i < s.len(),
        is_wrapper(s[i]),
    ensures
        strip_wrappers_start(s.subrange(i, s.len() as int)) == strip_wrappers_start(
            s.subrange(i + 1, s.len() as int),
        ),
{
    assert(s.subrange(i, s.len() as int).drop_first() =~= s.subrange(i + 1, s.len() as int));
}

proof fn lemma_strip_end_skip(s: Seq<char>, j: int)
    requires
        0 < j <= s.len(),
        is_wrapper(s[j - 1]),
    ensures
        strip_wrappers_end(s.take(j)) == strip_wrappers_end(s.take(j - 1)),
{
    assert(s.take(j).drop_last() =~= s.take(j - 1));
}

fn is_wrapper_char(c: char) -> (r: bool)
    ensures
        r == is_wrapper(c),
{
    c == '"' || c == '}' || c == '\n'
}

fn strip_wrappers(v: &Vec<char>) -> (r: Vec<char>)
    ensures
        r@ == strip_wrappers_end(strip_wrappers_start(v@)),
{
    let n = v.len();
    let mut lo: usize = 0;
    proof {
        assert(v@.subrange(0, n as int) =~= v@);
    }
    while lo < n && is_wrapper_char(v[lo])
        invariant
            lo <= n == v.len(),
            strip_wrappers_start(v@) == strip_wrappers_start(v@.subrange(lo as int, n as int)),
        decreases n - lo,
    {
        proof {
            lemma_strip_start_skip(v@, lo as int);
        }
        lo = lo + 1;
    }
    let ghost rest = v@.subrange(lo as int, n as int);
    proof {
        if lo < n {
            assert(rest[0] == v@[lo as int]);
        }
        assert(strip_wrappers_start(rest) == rest);
    }
    let mut hi: usize = n;
    proof {
        assert(rest.take(n - lo) =~= rest);
    }
    while hi > lo && is_wrapper_char(v[hi - 1])
        invariant
            lo <= hi <= n == v.len(),
            rest == v@.subrange(lo as int, n as int),
            strip_wrappers_end(rest) == strip_wrappers_end(rest.take(hi - lo)),
        decreases hi,
    {
        proof {
            assert(rest[hi - lo - 1] == v@[hi - 1]);
            lemma_strip_end_skip(rest, hi - lo);
        }
        hi = hi - 1;
    }
    proof {
        assert(rest.take(hi - lo) =~= v@.subrange(lo as int, hi as int));
        let t = rest.take(hi - lo);
        if t.len() > 0 {
            assert(t.last() == v@[hi - 1]);
        }
        assert(strip_wrappers_end(t) == t);
    }
    slice_chars(v, lo, hi)
}

/// The keywords of a captured keyword list: its pieces between commas,
/// whitespace trimmed, then quotes, braces and newlines stripped, the empty
/// ones dropped.
pub fn keywords_from_capture(capture: &str) -> (r: Vec<String>)
    ensures
        texts(r@) == keywords_of(split_on(capture@, ',')),
{
    let pieces = split_chars(&chars_of(capture), ',');
    let ghost ps = split_on(capture@, ',');
    let mut keywords: Vec<String> = Vec::new();
    let mut i: usize = 0;
    proof {
        assert(ps.take(0) =~= Seq::<Seq<char>>::empty());
        assert(texts(keywords@) =~= Seq::<Seq<char>>::empty());
    }
    while i < pieces.len()
        invariant
            i <= pieces.len() == ps.len(),
            ps == split_on(capture@, ','),
            forall|k: int| 0 <= k < pieces@.len() ==> #[trigger] pieces@[k]@ == ps[k],
            texts(keywords@) == keywords_of(ps.take(i as int)),
        decreases pieces.len() - i,
    {
        proof {
            assert(ps.take(i as int + 1).drop_last() =~= ps.take(i as int));
            assert(ps.take(i as int + 1).last() == ps[i as int]);
        }
        let k = strip_wrappers(&trim_chars(&pieces[i]));
        if k.len() > 0 {
            let ghost before = keywords@;
            keywords.push(string_of(&k));
            proof {
                assert(texts(keywords@) =~= texts(before).push(k@));
            }
        }
        i = i + 1;
    }
    proof {
        assert(ps.take(ps.len() as int) =~= ps);
    }
    keywords
}

fn first_capture(pattern: &str, text: &str) -> (r: Option<String>)
    ensures
        opt_text(r) == first_group(pattern_groups(pattern@, text@)),
{
    match group_one_of_matches(pattern, text) {
        Some(groups) => if groups.len() > 0 {
            match &groups[0] {
                Some(g) => Some(g.clone()),
                None => None,
            }
        } else {
            None
        },
        None => None,
    }
}

/// Reads the summary and the keywords out of a reply of the language model.
/// The reply is asked to be JSON but is read tolerantly, by pattern: what
/// cannot be found is empty.
pub fn parse_summary_and_keywords(input: &str) -> (r: (String, Vec<String>))
    ensures
        r.0@ == reply_summary(input@),
        texts(r.1@) == reply_keywords(input@),
{
    let summary = match first_capture(SUMMARY_PATTERN, input) {
        Some(s) => s,
        None => String::new(),
    };
    let keywords = match first_capture(KEYWORDS_PATTERN, input) {
        Some(c) => keywords_from_capture(c.as_str()),
        None => {
            let v: Vec<String> = Vec::new();
            proof {
                assert(texts(v@) =~= Seq::<Seq<char>>::empty());
            }
            v
        },
    };
    (summary, keywords)
}

// ---------------------------------------------------------------- answers

/// A line as `str::lines` gives it: without a carriage return before its newline.
pub open spec fn line_of(p: Seq<char>) -> Seq<char> {
    if p.len() > 0 && p.last() == '\r' {
        p.drop_last()
    } else {
        p
    }
}

pub const NO_SUMMARY: &'static str = "No summary located";

/// The first line at or after `k` that is not blank.
pub open spec fn first_content_line(ps: Seq<Seq<char>>, k: int) -> Seq<char>
    decreases ps.len() - k,
{
    if k < 0 || k >= ps.len() {
        NO_SUMMARY@
    } else if !is_blank(line_of(ps[k])) {
        line_of(ps[k])
    } else {
        first_content_line(ps, k + 1)
    }
}

/// The summary in a free-text answer: the whole (trimmed) answer when it is
/// one line, else the first non-blank line after the first.
pub open spec fn answer_summary(s: Seq<char>) -> Seq<char> {
    let t = trim(s);
    let ps = split_on(t, '\n');
    if ps.len() <= 1 {
        t
    } else {
        first_content_line(ps, 1)
    }
}

fn line_chars(p: &Vec<char>) -> (r: Vec<char>)
    ensures
        r@ == line_of(p@),
{
    if p.len() > 0 && p[p.len() - 1] == '\r' {
        slice_chars(p, 0, p.len() - 1)
    } else {
        slice_chars(p, 0, p.len())
    }
}

/// The summary in a free-text answer of the language model.
pub fn extract_summary_from_answer(input: &str) -> (r: String)
    ensures
        r@ == answer_summary(input@),
{
    let v = chars_of(input);
    let t = trim_chars(&v);
    let ps = split_chars(&t, '\n');
    let ghost sp = split_on(t@, '\n');
    if ps.len() <= 1 {
        return string_of(&t);
    }
    let mut k: usize = 1;
    while k < ps.len()
        invariant
            1 <= k <= ps.len() == sp.len(),
            v@ == input@,
            t@ == trim(v@),
            sp == split_on(t@, '\n'),
            forall|j: int| 0 <= j < ps@.len() ==> #[trigger] ps@[j]@ == sp[j],
            first_content_line(sp, 1) == first_content_line(sp, k as int),
        decreases ps.len() - k,
    {
        let line = line_chars(&ps[k]);
        proof {
            assert(ps@[k as int]@ == sp[k as int]);
        }
        if !all_whitespace(&line) {
            proof {
                assert(line@ == line_of(sp[k as int]));
                assert(first_content_line(sp, k as int) == line@);
                assert(v@ == input@);
                assert(answer_summary(input@) == first_content_line(sp, 1));
            }
            return string_of(&line);
        }
        k = k + 1;
    }
    NO_SUMMARY.to_owned()
}

// ---------------------------------------------------------------- prompts

/// A request to the language model.
#[derive(Debug)]
pub struct PromptRequest {
    pub system_prompt: String,
    pub user_prompt: String,
    pub max_tokens: u16,
}

/// Texts shorter than this (in characters) get the prompt for scant input.
pub const SHORT_INPUT: usize = 200;

/// The longest user prompt, in characters.
pub const PROMPT_BUDGET: usize = 4000;

pub const ISSUE_PROMPT_LONG: &'static str = "\n        Summarize the GitHub issue in one paragraph without mentioning the issue number. Highlight the key problem and any signature information provided. The summary should be concise, informative, and easy to understand, prioritizing clarity and brevity. Additionally, extract high-level keywords that represent broader categories or themes relevant to the issue's purpose, features, and tools used. These keywords should help categorize the issue in a wider context and should not be too literal or specific, avoiding overly long phrases unless absolutely necessary. Expected Output:\n        { \\\"summary\\\": \\\"the_summary_generated, a short paragraph summarizing the issue, including its purpose and features, without referencing the issue number.\\\",\n          \\\"keywords\\\": [\\\"a list of high-level keywords that encapsulate the broader context, categories, or themes of the issue, excluding specific details and issue numbers.\\\"] }\n        Ensure you reply in RFC8259-compliant JSON format.";

pub const ISSUE_PROMPT_SHORT: &'static str = "\n        Given the limited information available, summarize the GitHub issue in one paragraph without mentioning the issue number. Highlight the key problem and any signature information that can be inferred. The summary should be concise, informative, and easy to understand, prioritizing clarity and brevity even with scant details. Additionally, extract high-level keywords that represent broader categories or themes relevant to the issue's inferred purpose, features, and tools used. These keywords should help categorize the issue in a wider context and should not be too literal or specific, avoiding overly long phrases unless absolutely necessary. Expected Output:\n        { \\\"summary\\\": \\\"The summary generated should be a concise paragraph that highlights any discernible purpose, technologies, or features from the limited information.\\\",\n          \\\"keywords\\\": [\\\"A list of inferred high-level keywords that broadly categorize the repository based on the scant details available.\\\"] }\n        Ensure you reply in RFC8259-compliant JSON format.";

pub const PROJECT_PROMPT_LONG: &'static str = "\n    Summarize the GitHub repository's README or description in one detailed paragraph, focusing solely on the essential aspects such as the project's purpose, technologies used, and notable features. Do not include non-essential elements like personal appeals or donation links. Extract high-level keywords that represent broader categories or themes relevant to the project. These keywords should categorize the project in a wider context and not be overly specific or literal. Expected Output:\n    { \\\"summary\\\": \\\"A comprehensive paragraph that succinctly summarizes the repository, highlighting its purpose, technologies, and key features, without including extraneous details.\\\",\n      \\\"keywords\\\": [\\\"A list of high-level keywords that encapsulate the broader context, categories, or themes of the repository, focusing on essential aspects only.\\\"] }\n    Ensure your reply is in RFC8259-compliant JSON format.\n    ";

pub const PROJECT_PROMPT_SHORT: &'static str = "When summarizing a GitHub repository's README or description, concentrate on the core content. Provide a concise paragraph that captures the primary purpose, technologies used, and notable features. Avoid mentioning non-essential elements such as donation links or personal appeals. Deduce and include high-level keywords that broadly categorize the repository, focusing on the technologies, functionality, and scope based on the available information. These keywords should reflect the main themes or categories relevant to the project. Expected Output:\n    { \\\"summary\\\": \\\"The summary generated should be a concise paragraph that highlights any discernible purpose, technologies, or features from the limited information.\\\",\n      \\\"keywords\\\": [\\\"A list of inferred high-level keywords that broadly categorize the repository based on the scant details available.\\\"] }\n    Ensure you reply in RFC8259-compliant JSON format.";

/// The owner and the repository named by a URL of the form
/// `https://host/owner/repo/...`.
pub open spec fn owner_repo(url: Seq<char>) -> Option<(Seq<char>, Seq<char>)> {
    let parts = split_on(url, '/');
    if parts.len() < 5 {
        None
    } else {
        Some((parts[3], parts[4]))
    }
}

/// The user prompt for an issue, before it is cut to the budget.
pub open spec fn issue_input(title: Seq<char>, owner: Seq<char>, repo: Seq<char>, description: Seq<
    char,
>) -> Seq<char> {
    if description.len() < SHORT_INPUT {
        "Here is the input: `"@ + title + "` at repository `"@ + repo + "` by owner `"@ + owner
            + "`, states: "@ + description
    } else {
        "Here is the input: The issue titled `"@ + title + "` at repository `"@ + repo
            + "` by owner `"@ + owner + "`, states in the body text: "@ + description
    }
}

/// The prompt that summarizes an issue: the variant for scant input below the
/// length threshold, the other one cut to the prompt budget. `None` when the
/// issue URL names no owner and repository.
pub open spec fn issue_prompt_spec(issue_id: Seq<char>, title: Seq<char>, description: Seq<char>) -> Option<
    (Seq<char>, Seq<char>, u16),
> {
    match owner_repo(issue_id) {
        None => None,
        Some((owner, repo)) => if description.len() < SHORT_INPUT {
            Some((ISSUE_PROMPT_SHORT@, issue_input(title, owner, repo, description), 180u16))
        } else {
            Some(
                (
                    ISSUE_PROMPT_LONG@,
                    prefix(issue_input(title, owner, repo, description), PROMPT_BUDGET as nat),
                    250u16,
                ),
            )
        },
    }
}

/// The first `n` characters of `v` (all of them when it is shorter).
pub fn prefix_chars(v: &Vec<char>, n: usize) -> (r: Vec<char>)
    ensures
        r@ == prefix(v@, n as nat),
{
    if v.len() <= n {
        slice_chars(v, 0, v.len())
    } else {
        slice_chars(v, 0, n)
    }
}

fn owner_repo_chars(url: &str) -> (r: Option<(Vec<char>, Vec<char>)>)
    ensures
        r matches Some(p) ==> owner_repo(url@) == Some((p.0@, p.1@)),
        r is None ==> owner_repo(url@) is None,
{
    let parts = split_chars(&chars_of(url), '/');
    if parts.len() < 5 {
        None
    } else {
        Some((slice_chars(&parts[3], 0, parts[3].len()), slice_chars(&parts[4], 0, parts[4].len())))
    }
}

/// Builds the prompt that summarizes an issue.
pub fn issue_prompt(issue_id: &str, title: &str, description: &str) -> (r: Option<PromptRequest>)
    ensures
        r matches Some(p) ==> issue_prompt_spec(issue_id@, title@, description@) == Some(
            (p.system_prompt@, p.user_prompt@, p.max_tokens),
        ),
        r is None ==> issue_prompt_spec(issue_id@, title@, description@) is None,
{
    let (owner, repo) = match owner_repo_chars(issue_id) {
        None => return None,
        Some(p) => p,
    };
    let d = chars_of(description);
    let mut out: Vec<char> = Vec::new();
    let short = d.len() < SHORT_INPUT;
    if short {
        crate::text::push_all(&mut out, "Here is the input: `");
    } else {
        crate::text::push_all(&mut out, "Here is the input: The issue titled `");
    }
    crate::text::push_all(&mut out, title);
    crate::text::push_all(&mut out, "` at repository `");
    push_chars(&mut out, &repo);
    crate::text::push_all(&mut out, "` by owner `");
    push_chars(&mut out, &owner);
    if short {
        crate::text::push_all(&mut out, "`, states: ");
    } else {
        crate::text::push_all(&mut out, "`, states in the body text: ");
    }
    push_chars(&mut out, &d);
    proof {
        assert(out@ =~= issue_input(title@, owner@, repo@, description@));
    }
    if short {
        Some(
            PromptRequest {
                system_prompt: ISSUE_PROMPT_SHORT.to_owned(),
                user_prompt: string_of(&out),
                max_tokens: 180,
            },
        )
    } else {
        Some(
            PromptRequest {
                system_prompt: ISSUE_PROMPT_LONG.to_owned(),
                user_prompt: string_of(&prefix_chars(&out, PROMPT_BUDGET)),
                max_tokens: 250,
            },
        )
    }
}

/// The user prompt for a repository, before it is cut to the budget.
pub open spec fn project_input(
    owner: Seq<char>,
    repo: Seq<char>,
    language: Seq<char>,
    description: Seq<char>,
    readme: Seq<char>,
) -> Seq<char> {
    let lang = if language.len() == 0 {
        Seq::empty()
    } else {
        "mainly uses `"@ + language + "` in the project"@
    };
    if readme.len() < SHORT_INPUT {
        let readme_part = if readme.len() == 0 {
            Seq::empty()
        } else {
            "states in readme: "@ + readme
        };
        "Here is the input: The repository `"@ + repo + "` by owner `"@ + owner + "` "@ + lang
            + ",`"@ + description + "`, "@ + readme_part
    } else {
        "Here is the input: The repository `"@ + repo + "`  by owner `"@ + owner + "` "@ + lang
            + ", has a short text description: `"@ + description
            + "`, mentioned more details in readme: `"@ + readme + "`"@
    }
}

/// The prompt that summarizes a repository, chosen by the length of its readme.
pub open spec fn project_prompt_spec(
    project_id: Seq<char>,
    language: Seq<char>,
    description: Seq<char>,
    readme: Seq<char>,
) -> Option<(Seq<char>, Seq<char>, u16)> {
    match owner_repo(project_id) {
        None => None,
        Some((owner, repo)) => if readme.len() < SHORT_INPUT {
            Some(
                (
                    PROJECT_PROMPT_SHORT@,
                    project_input(owner, repo, language, description, readme),
                    180u16,
                ),
            )
        } else {
            Some(
                (
                    PROJECT_PROMPT_LONG@,
                    prefix(
                        project_input(owner, repo, language, description, readme),
                        PROMPT_BUDGET as nat,
                    ),
                    250u16,
                ),
            )
        },
    }
}

/// Builds the prompt that summarizes a repository.
pub fn project_prompt(repo_data: &crate::events::RepoData) -> (r: Option<PromptRequest>)
    ensures
        r matches Some(p) ==> project_prompt_spec(
            repo_data.project_id@,
            repo_data.main_language@,
            repo_data.repo_description@,
            repo_data.repo_readme@,
        ) == Some((p.system_prompt@, p.user_prompt@, p.max_tokens)),
        r is None ==> project_prompt_spec(
            repo_data.project_id@,
            repo_data.main_language@,
            repo_data.repo_description@,
            repo_data.repo_readme@,
        ) is None,
{
    let (owner, repo) = match owner_repo_chars(repo_data.project_id.as_str()) {
        None => return None,
        Some(p) => p,
    };
    let language = chars_of(repo_data.main_language.as_str());
    let readme = chars_of(repo_data.repo_readme.as_str());
    let mut lang: Vec<char> = Vec::new();
    if language.len() > 0 {
        crate::text::push_all(&mut lang, "mainly uses `");
        push_chars(&mut lang, &language);
        crate::text::push_all(&mut lang, "` in the project");
    }
    let short = readme.len() < SHORT_INPUT;
    let mut out: Vec<char> = Vec::new();
    crate::text::push_all(&mut out, "Here is the input: The repository `");
    push_chars(&mut out, &repo);
    if short {
        crate::text::push_all(&mut out, "` by owner `");
    } else {
        crate::text::push_all(&mut out, "`  by owner `");
    }
    push_chars(&mut out, &owner);
    crate::text::push_all(&mut out, "` ");
    push_chars(&mut out, &lang);
    if short {
        crate::text::push_all(&mut out, ",`");
        crate::text::push_all(&mut out, repo_data.repo_description.as_str());
        crate::text::push_all(&mut out, "`, ");
        if readme.len() > 0 {
            crate::text::push_all(&mut out, "states in readme: ");
            push_chars(&mut out, &readme);
        }
    } else {
        crate::text::push_all(&mut out, ", has a short text description: `");
        crate::text::push_all(&mut out, repo_data.repo_description.as_str());
        crate::text::push_all(&mut out, "`, mentioned more details in readme: `");
        push_chars(&mut out, &readme);
        crate::text::push_all(&mut out, "`");
    }
    proof {
        assert(out@ =~= project_input(
            owner@,
            repo@,
            repo_data.main_language@,
            repo_data.repo_description@,
            repo_data.repo_readme@,
        ));
    }
    if short {
        Some(
            PromptRequest {
                system_prompt: PROJECT_PROMPT_SHORT.to_owned(),
                user_prompt: string_of(&out),
                max_tokens: 180,
            },
        )
    } else {
        Some(
            PromptRequest {
                system_prompt: PROJECT_PROMPT_LONG.to_owned(),
                user_prompt: string_of(&prefix_chars(&out, PROMPT_BUDGET)),
                max_tokens: 250,
            },
        )
    }
}

// ---------------------------------------------------------------- replies

/// Who wrote a chat message.
#[derive(Clone, Copy, Debug, PartialEq, Eq, Structural)]
pub enum Role {
    System,
    User,
    Assistant,
    Tool,
    Function,
}

#[derive(Debug)]
pub struct ChatMessage {
    pub content: Option<String>,
    pub role: Role,
}

#[derive(Debug)]
pub struct ChatChoice {
    pub finish_reason: Option<String>,
    pub index: u32,
    pub message: ChatMessage,
}

/// A reply of a chat-completion service.
#[derive(Debug)]
pub struct ChatResponse {
    pub choices: Vec<ChatChoice>,
    pub model: String,
}

/// The text of the first choice of a reply, if it has one.
pub fn chat_reply_text(resp: &ChatResponse) -> (r: Option<String>)
    ensures
        resp.choices@.len() == 0 ==> r is None,
        resp.choices@.len() > 0 ==> r == resp.choices@[0].message.content,
{
    if resp.choices.len() == 0 {
        None
    } else {
        match &resp.choices[0].message.content {
            Some(s) => Some(s.clone()),
            None => None,
        }
    }
}

} // verus!
