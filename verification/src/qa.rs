//! Planning questions and answers: their kinds, how question texts are
//! cleaned and classified, and which failures are worth another try.
use vstd::prelude::*;
use crate::ids::{id_text, write_id};
use crate::text::{append_str, owned};
use crate::story::{Choice, StoryGraph, StoryNode};
use crate::text::{
    chars_between, chars_of, contains, contains_text, is_numeric, is_whitespace, lowercase_text,
    numeric_char, string_from_chars, to_lowercase, trim_back, trim_chars, trim_front, trimmed, whitespace_char,
};

verus! {

/// What a planning question is about.
#[derive(Debug, Clone, Copy, PartialEq, Eq, Hash, Structural)]
pub enum PlanningQuestionType {
    Requirements,
    Architecture,
    Dependencies,
    Priorities,
    Constraints,
    Risks,
    Implementation,
    Validation,
}

/// How soon a question should be answered.
#[derive(Debug, Clone, Copy, PartialEq, Eq, Structural)]
pub enum QuestionPriority {
    Critical,
    High,
    Medium,
    Low,
}

/// How an answer was reached.
#[derive(Debug, Clone, Copy, PartialEq, Eq, Structural)]
pub enum AnswerMethod {
    Collaborative,
    Research,
    Prototyping,
    ExpertConsult,
    UserFeedback,
}

/// How far an answer has been checked.
#[derive(Debug, Clone, Copy, PartialEq, Eq, Hash, Structural)]
pub enum AnswerValidation {
    Tentative,
    Discussed,
    Researched,
    Validated,
}

/// The kind of planning session.
#[derive(Debug, Clone, Copy, PartialEq, Eq, Structural)]
pub enum SessionType {
    InitialPlanning,
    DetailedDesign,
    RiskAssessment,
    ImplementationPlanning,
    Review,
}

/// Outcome of retrying a failed request.
#[derive(Debug)]
pub enum RetryResult {
    Success,
    StillFailing(String),
    PermanentFailure(String),
}

/// What the retry policy reads of a failed generation: the message of a
/// service failure, a timeout, or any other failure.
#[derive(Debug)]
pub enum FailureKind {
    AiServiceError { message: String },
    Timeout { operation: String },
    Other,
}

/// A service message that signals a passing condition: overload, timeout,
/// rate limiting or a gateway failure.
pub open spec fn retryable_message(m: Seq<char>) -> bool {
    ||| contains_text(m, "overloaded"@)
    ||| contains_text(m, "timeout"@)
    ||| contains_text(m, "429"@)
    ||| contains_text(m, "502"@)
    ||| contains_text(m, "503"@)
    ||| contains_text(m, "529"@)
}

/// Service failures with a passing condition and timeouts are retried;
/// nothing else is.
pub fn is_retryable_error(error: &FailureKind) -> (r: bool)
    ensures
        r == match error {
            FailureKind::AiServiceError { message } => retryable_message(message@),
            FailureKind::Timeout { .. } => true,
            FailureKind::Other => false,
        },
{
    match error {
        FailureKind::AiServiceError { message } => {
            let m = message.as_str();
            contains(m, "overloaded") || contains(m, "timeout") || contains(m, "429") || contains(
                m,
                "502",
            ) || contains(m, "503") || contains(m, "529")
        },
        FailureKind::Timeout { .. } => true,
        FailureKind::Other => false,
    }
}

/// The kind of a question, judged from keywords of its lower-case text, in
/// this order: requirements, architecture, dependencies, priorities,
/// constraints, risks, implementation, validation; requirements otherwise.
pub open spec fn question_type_for(lowered: Seq<char>) -> PlanningQuestionType {
    if contains_text(lowered, "requirement"@) || contains_text(lowered, "need"@) || contains_text(
        lowered,
        "should"@,
    ) {
        PlanningQuestionType::Requirements
    } else if contains_text(lowered, "architecture"@) || contains_text(lowered, "structure"@)
        || contains_text(lowered, "design"@) {
        PlanningQuestionType::Architecture
    } else if contains_text(lowered, "depend"@) || contains_text(lowered, "order"@) || contains_text(
        lowered,
        "before"@,
    ) {
        PlanningQuestionType::Dependencies
    } else if contains_text(lowered, "first"@) || contains_text(lowered, "priority"@) || contains_text(
        lowered,
        "important"@,
    ) {
        PlanningQuestionType::Priorities
    } else if contains_text(lowered, "constraint"@) || contains_text(lowered, "limit"@)
        || contains_text(lowered, "budget"@) {
        PlanningQuestionType::Constraints
    } else if contains_text(lowered, "risk"@) || contains_text(lowered, "problem"@) || contains_text(
        lowered,
        "wrong"@,
    ) {
        PlanningQuestionType::Risks
    } else if contains_text(lowered, "build"@) || contains_text(lowered, "implement"@)
        || contains_text(lowered, "create"@) {
        PlanningQuestionType::Implementation
    } else if contains_text(lowered, "test"@) || contains_text(lowered, "validate"@) || contains_text(
        lowered,
        "verify"@,
    ) {
        PlanningQuestionType::Validation
    } else {
        PlanningQuestionType::Requirements
    }
}

/// A question that speaks of requirements (its lower-case text contains
/// "requirement", "need" or "should") is a requirements question, whatever
/// else it mentions.
pub proof fn law_requirement_words_make_requirements_questions(question: Seq<char>)
    requires
        contains_text(lowercase_text(question), "requirement"@) || contains_text(
            lowercase_text(question),
            "need"@,
        ) || contains_text(lowercase_text(question), "should"@),
    ensures
        question_type_for(lowercase_text(question)) == PlanningQuestionType::Requirements,
{
}

/// The kind of a question follows the first group of keywords its
/// lower-case text contains, in this order: requirements (requirement,
/// need, should), architecture (architecture, structure, design),
/// dependencies (depend, order, before), priorities (first, priority,
/// important), constraints (constraint, limit, budget), risks (risk,
/// problem, wrong), implementation (build, implement, create), validation
/// (test, validate, verify); a question with none of them is a
/// requirements question.
pub proof fn law_question_kinds_follow_keywords(question: Seq<char>)
    ensures
        ({
            let l = lowercase_text(question);
            let has = |w: Seq<char>| contains_text(l, w);
            let req = has("requirement"@) || has("need"@) || has("should"@);
            let arch = has("architecture"@) || has("structure"@) || has("design"@);
            let dep = has("depend"@) || has("order"@) || has("before"@);
            let pri = has("first"@) || has("priority"@) || has("important"@);
            let con = has("constraint"@) || has("limit"@) || has("budget"@);
            let risk = has("risk"@) || has("problem"@) || has("wrong"@);
            let imp = has("build"@) || has("implement"@) || has("create"@);
            let val = has("test"@) || has("validate"@) || has("verify"@);
            let t = question_type_for(l);
            &&& req ==> t == PlanningQuestionType::Requirements
            &&& !req && arch ==> t == PlanningQuestionType::Architecture
            &&& !req && !arch && dep ==> t == PlanningQuestionType::Dependencies
            &&& !req && !arch && !dep && pri ==> t == PlanningQuestionType::Priorities
            &&& !req && !arch && !dep && !pri && con ==> t == PlanningQuestionType::Constraints
            &&& !req && !arch && !dep && !pri && !con && risk ==> t == PlanningQuestionType::Risks
            &&& !req && !arch && !dep && !pri && !con && !risk && imp ==> t
                == PlanningQuestionType::Implementation
            &&& !req && !arch && !dep && !pri && !con && !risk && !imp && val ==> t
                == PlanningQuestionType::Validation
            &&& !req && !arch && !dep && !pri && !con && !risk && !imp && !val ==> t
                == PlanningQuestionType::Requirements
        }),
{
}

/// The kind of a question whose text is already in lower case.
pub fn question_type_from_lowered(lowered: &str) -> (r: PlanningQuestionType)
    ensures
        r == question_type_for(lowered@),
{
    let l = lowered;
    if contains(l, "requirement") || contains(l, "need") || contains(l, "should") {
        PlanningQuestionType::Requirements
    } else if contains(l, "architecture") || contains(l, "structure") || contains(l, "design") {
        PlanningQuestionType::Architecture
    } else if contains(l, "depend") || contains(l, "order") || contains(l, "before") {
        PlanningQuestionType::Dependencies
    } else if contains(l, "first") || contains(l, "priority") || contains(l, "important") {
        PlanningQuestionType::Priorities
    } else if contains(l, "constraint") || contains(l, "limit") || contains(l, "budget") {
        PlanningQuestionType::Constraints
    } else if contains(l, "risk") || contains(l, "problem") || contains(l, "wrong") {
        PlanningQuestionType::Risks
    } else if contains(l, "build") || contains(l, "implement") || contains(l, "create") {
        PlanningQuestionType::Implementation
    } else if contains(l, "test") || contains(l, "validate") || contains(l, "verify") {
        PlanningQuestionType::Validation
    } else {
        PlanningQuestionType::Requirements
    }
}

/// The kind of a question, matched without regard to case.
pub fn infer_question_type(question: &str) -> (r: PlanningQuestionType)
    ensures
        r == question_type_for(lowercase_text(question@)),
{
    let lowered = to_lowercase(question);
    question_type_from_lowered(lowered.as_str())
}

/// `i` is the first position of `c` in `s`.
pub open spec fn is_first_pos(s: Seq<char>, c: char, i: int) -> bool {
    0 <= i < s.len() && s[i] == c && forall|j: int| 0 <= j < i ==> s[j] != c
}

/// `i` is the last position of `c` in `s`.
pub open spec fn is_last_pos(s: Seq<char>, c: char, i: int) -> bool {
    0 <= i < s.len() && s[i] == c && forall|j: int| i < j < s.len() ==> s[j] != c
}

/// The first position of `c` in `s` (meaningful when `s` contains `c`).
pub open spec fn first_pos(s: Seq<char>, c: char) -> int {
    choose|i: int| is_first_pos(s, c, i)
}

/// The last position of `c` in `s` (meaningful when `s` contains `c`).
pub open spec fn last_pos(s: Seq<char>, c: char) -> int {
    choose|i: int| is_last_pos(s, c, i)
}

/// Without a trailing type annotation: the text before the last `|`,
/// trimmed, when there is one.
pub open spec fn strip_annotation(t: Seq<char>) -> Seq<char> {
    if t.contains('|') {
        trimmed(t.take(last_pos(t, '|')))
    } else {
        t
    }
}

/// Every character is a digit-like character or whitespace.
pub open spec fn number_like(p: Seq<char>) -> bool {
    forall|i: int| 0 <= i < p.len() ==> numeric_char(#[trigger] p[i]) || whitespace_char(p[i])
}

/// Without leading numbering: when the text before the first `.` is made of
/// digits and whitespace only, what follows that `.`, trimmed.
pub open spec fn strip_numbering(t: Seq<char>) -> Seq<char> {
    if t.contains('.') && number_like(t.take(first_pos(t, '.'))) {
        trimmed(t.skip(first_pos(t, '.') + 1))
    } else {
        t
    }
}

/// The core of a question text: annotation and numbering removed, trimmed.
pub open spec fn question_core(text: Seq<char>) -> Seq<char> {
    trimmed(strip_numbering(strip_annotation(text)))
}

/// `s` begins with `w`.
pub open spec fn starts_with(s: Seq<char>, w: Seq<char>) -> bool {
    w.len() <= s.len() && s.take(w.len() as int) == w
}

/// A lower-case text that opens like a question.
pub open spec fn question_stem(lowered: Seq<char>) -> bool {
    ||| starts_with(lowered, "what"@)
    ||| starts_with(lowered, "how"@)
    ||| starts_with(lowered, "should"@)
    ||| starts_with(lowered, "could"@)
    ||| starts_with(lowered, "might"@)
}

/// `s` ends with a question mark.
pub open spec fn ends_with_question_mark(s: Seq<char>) -> bool {
    s.len() > 0 && s.last() == '?'
}

/// A question core, given also in lower case, with a `?` added when it
/// opens like a question and lacks one.
pub open spec fn finished_question(core: Seq<char>, lowered: Seq<char>) -> Seq<char> {
    if question_stem(lowered) && !ends_with_question_mark(core) {
        core.push('?')
    } else {
        core
    }
}

/// A question text cleaned of annotation and numbering, with its `?`.
pub open spec fn cleaned_question(text: Seq<char>) -> Seq<char> {
    finished_question(question_core(text), lowercase_text(question_core(text)))
}

fn find_first(s: &Vec<char>, c: char) -> (r: Option<usize>)
    ensures
        match r {
            Some(i) => is_first_pos(s@, c, i as int),
            None => !s@.contains(c),
        },
{
    let n = s.len();
    for i in 0..n
        invariant
            n == s@.len(),
            forall|j: int| 0 <= j < i ==> s@[j] != c,
    {
        if s[i] == c {
            return Some(i);
        }
    }
    None
}

fn find_last(s: &Vec<char>, c: char) -> (r: Option<usize>)
    ensures
        match r {
            Some(i) => is_last_pos(s@, c, i as int),
            None => !s@.contains(c),
        },
{
    let n = s.len();
    let mut i = n;
    while i > 0
        invariant
            n == s@.len(),
            i <= n,
            forall|j: int| i <= j < n ==> s@[j] != c,
        decreases i,
    {
        if s[i - 1] == c {
            return Some(i - 1);
        }
        i = i - 1;
    }
    None
}

proof fn lemma_first_pos(s: Seq<char>, c: char, i: int)
    requires
        is_first_pos(s, c, i),
    ensures
        first_pos(s, c) == i,
        s.contains(c),
{
    let k = first_pos(s, c);
    assert(is_first_pos(s, c, k));
    if k < i {
        assert(s[k] != c);
    }
    if i < k {
        assert(s[i] != c);
    }
}

proof fn lemma_last_pos(s: Seq<char>, c: char, i: int)
    requires
        is_last_pos(s, c, i),
    ensures
        last_pos(s, c) == i,
        s.contains(c),
{
    let k = last_pos(s, c);
    assert(is_last_pos(s, c, k));
    if k < i {
        assert(s[i] != c);
    }
    if i < k {
        assert(s[k] != c);
    }
}

fn all_number_like(p: &Vec<char>) -> (r: bool)
    ensures
        r == number_like(p@),
{
    let n = p.len();
    for i in 0..n
        invariant
            n == p@.len(),
            forall|j: int| 0 <= j < i ==> numeric_char(#[trigger] p@[j]) || whitespace_char(p@[j]),
    {
        let c = p[i];
        if !(is_numeric(c) || is_whitespace(c)) {
            return false;
        }
    }
    true
}

/// The core of a question text, as characters.
fn question_core_chars(text: &Vec<char>) -> (r: Vec<char>)
    ensures
        r@ == question_core(text@),
{
    let a: Vec<char> = match find_last(text, '|') {
        Some(p) => {
            proof {
                lemma_last_pos(text@, '|', p as int);
            }
            let head = chars_between(text.as_slice(), 0, p);
            proof {
                assert(head@ =~= text@.take(p as int));
            }
            trim_chars(head.as_slice())
        },
        None => chars_between(text.as_slice(), 0, text.len()),
    };
    proof {
        assert(text@.subrange(0, text@.len() as int) =~= text@);
    }
    let b: Vec<char> = match find_first(&a, '.') {
        Some(d) => {
            proof {
                lemma_first_pos(a@, '.', d as int);
            }
            let head = chars_between(a.as_slice(), 0, d);
            proof {
                assert(head@ =~= a@.take(d as int));
            }
            if all_number_like(&head) {
                let tail = chars_between(a.as_slice(), d + 1, a.len());
                proof {
                    assert(tail@ =~= a@.skip(d + 1));
                }
                trim_chars(tail.as_slice())
            } else {
                chars_between(a.as_slice(), 0, a.len())
            }
        },
        None => chars_between(a.as_slice(), 0, a.len()),
    };
    proof {
        assert(a@.subrange(0, a@.len() as int) =~= a@);
    }
    trim_chars(b.as_slice())
}

/// The core of a question text: annotation after the last `|` and leading
/// numbering removed, trimmed.
pub fn question_core_of(text: &str) -> (r: String)
    ensures
        r@ == question_core(text@),
{
    let cs = chars_of(text);
    let core = question_core_chars(&cs);
    string_from_chars(core.as_slice())
}

pub(crate) fn starts_with_lit(s: &Vec<char>, w: &str) -> (r: bool)
    ensures
        r == starts_with(s@, w@),
{
    let wc = chars_of(w);
    if wc.len() > s.len() {
        return false;
    }
    let n = wc.len();
    for i in 0..n
        invariant
            n == wc@.len(),
            wc@ == w@,
            n <= s@.len(),
            forall|j: int| 0 <= j < i ==> s@[j] == wc@[j],
    {
        if s[i] != wc[i] {
            proof {
                assert(s@.take(n as int)[i as int] != w@[i as int]);
            }
            return false;
        }
    }
    proof {
        assert(s@.take(n as int) =~= w@);
    }
    true
}

/// Adds a `?` to a question core that opens like a question (judged on its
/// lower-case form `lowered`) and does not end with one.
pub fn finish_question(core: &str, lowered: &str) -> (r: String)
    ensures
        r@ == finished_question(core@, lowered@),
{
    let l = chars_of(lowered);
    let stem = starts_with_lit(&l, "what") || starts_with_lit(&l, "how") || starts_with_lit(
        &l,
        "should",
    ) || starts_with_lit(&l, "could") || starts_with_lit(&l, "might");
    let c = chars_of(core);
    let ends_q = c.len() > 0 && c[c.len() - 1] == '?';
    if stem && !ends_q {
        let mut r = crate::text::owned(core);
        crate::text::push_char(&mut r, '?');
        r
    } else {
        crate::text::owned(core)
    }
}

/// A question text with any trailing type annotation (after the last `|`)
/// and leading numbering removed, trimmed, and given a `?` when it opens like
/// a question (what, how, should, could, might, in any case) without one.
pub fn clean_question_text(text: &str) -> (r: String)
    ensures
        r@ == cleaned_question(text@),
{
    let core = question_core_of(text);
    let lowered = to_lowercase(core.as_str());
    finish_question(core.as_str(), lowered.as_str())
}


/// The pieces of `s` between occurrences of `c`, as `str::split` yields them
/// (an empty text gives one empty piece).
pub open spec fn pieces(s: Seq<char>, c: char) -> Seq<Seq<char>>
    decreases s.len(),
{
    if s.len() == 0 {
        seq![Seq::<char>::empty()]
    } else {
        let p = pieces(s.drop_last(), c);
        if s.last() == c {
            p.push(Seq::<char>::empty())
        } else {
            p.update(p.len() - 1, p.last().push(s.last()))
        }
    }
}

proof fn lemma_pieces_nonempty(s: Seq<char>, c: char)
    ensures
        pieces(s, c).len() >= 1,
    decreases s.len(),
{
    if s.len() > 0 {
        lemma_pieces_nonempty(s.drop_last(), c);
    }
}

/// The texts of a list of strings.
pub open spec fn texts_of(v: Seq<String>) -> Seq<Seq<char>> {
    v.map_values(|s: String| s@)
}

/// The lines of a text, split at `\n`.
pub(crate) fn split_lines(s: &Vec<char>) -> (r: Vec<String>)
    ensures
        texts_of(r@) == pieces(s@, '\n'),
{
    split_at_char(s, '\n')
}

/// Splits the characters of `s` at each `c`.
fn split_at_char(s: &Vec<char>, c: char) -> (r: Vec<String>)
    ensures
        texts_of(r@) == pieces(s@, c),
{
    let mut done: Vec<String> = Vec::new();
    let mut cur = String::new();
    let n = s.len();
    for i in 0..n
        invariant
            n == s@.len(),
            texts_of(done@).push(cur@) == pieces(s@.take(i as int), c),
    {
        let ghost before = s@.take(i as int);
        proof {
            assert(s@.take(i + 1).drop_last() =~= before);
            lemma_pieces_nonempty(before, c);
        }
        if s[i] == c {
            let finished = cur;
            done.push(finished);
            cur = String::new();
            proof {
                assert(texts_of(done@) =~= texts_of(done@.drop_last()).push(finished@));
                assert(texts_of(done@).push(cur@) =~= pieces(s@.take(i + 1), c));
            }
        } else {
            crate::text::push_char(&mut cur, s[i]);
            proof {
                assert(texts_of(done@).push(cur@) =~= pieces(s@.take(i + 1), c));
            }
        }
    }
    let ghost t = texts_of(done@);
    done.push(cur);
    proof {
        assert(s@.take(n as int) =~= s@);
        assert(texts_of(done@) =~= t.push(done@.last()@));
    }
    done
}

/// A trimmed line without a one-character number and its `.` or `)` in
/// front (the rest trimmed again).
pub open spec fn strip_line_number(t: Seq<char>) -> Seq<char> {
    if t.len() > 1 && numeric_char(t[0]) && (t[1] == '.' || t[1] == ')') {
        trimmed(t.skip(2))
    } else {
        t
    }
}

/// A line worth keeping as a question: it ends with `?`, speaks of what,
/// how, should we, could we or might we (in any case), or is longer than
/// twenty bytes.
pub open spec fn question_like(cl: Seq<char>) -> bool {
    ||| ends_with_question_mark(cl)
    ||| contains_text(lowercase_text(cl), "what"@)
    ||| contains_text(lowercase_text(cl), "how"@)
    ||| contains_text(lowercase_text(cl), "should we"@)
    ||| contains_text(lowercase_text(cl), "could we"@)
    ||| contains_text(lowercase_text(cl), "might we"@)
    ||| vstd::utf8::encode_utf8(cl).len() > 20
}

/// The questions found line by line.
pub open spec fn line_questions(lines: Seq<Seq<char>>) -> Seq<Seq<char>>
    decreases lines.len(),
{
    if lines.len() == 0 {
        Seq::empty()
    } else {
        let rest = line_questions(lines.drop_last());
        let t = trimmed(lines.last());
        let cl = strip_line_number(t);
        if t.len() > 0 && question_like(cl) {
            rest.push(cleaned_question(cl))
        } else {
            rest
        }
    }
}

/// The questions found sentence by sentence: every trimmed sentence longer
/// than twenty bytes.
pub open spec fn sentence_questions(parts: Seq<Seq<char>>) -> Seq<Seq<char>>
    decreases parts.len(),
{
    if parts.len() == 0 {
        Seq::empty()
    } else {
        let rest = sentence_questions(parts.drop_last());
        let t = trimmed(parts.last());
        if vstd::utf8::encode_utf8(t).len() > 20 {
            rest.push(cleaned_question(t))
        } else {
            rest
        }
    }
}

/// The questions in a free text: those found line by line, or, when there
/// are none, those found sentence by sentence.
pub open spec fn extracted_questions(text: Seq<char>) -> Seq<Seq<char>> {
    let q = line_questions(pieces(text, '\n'));
    if q.len() > 0 {
        q
    } else {
        sentence_questions(pieces(text, '.'))
    }
}

proof fn lemma_pieces_without_separator(s: Seq<char>, c: char)
    requires
        forall|i: int| 0 <= i < s.len() ==> s[i] != c,
    ensures
        pieces(s, c) == seq![s],
    decreases s.len(),
{
    if s.len() > 0 {
        lemma_pieces_without_separator(s.drop_last(), c);
        assert(s.drop_last().push(s.last()) =~= s);
        assert(seq![s.drop_last()].update(0, s.drop_last().push(s.last())) =~= seq![s]);
    } else {
        assert(s =~= Seq::<char>::empty());
    }
}

/// A one-line answer that starts with a digit followed by `.` or `)` gives
/// one question when the text after the numbering reads like one: that
/// text, trimmed and cleaned; the numbering is dropped, whichever of the two
/// marks it uses.
pub proof fn law_numbered_line_loses_its_number(d: char, mark: char, s: Seq<char>)
    requires
        numeric_char(d),
        !whitespace_char(d),
        mark == '.' || mark == ')',
        forall|i: int| 0 <= i < s.len() ==> s[i] != '\n',
        question_like(trimmed(s)),
    ensures
        extracted_questions(seq![d, mark] + s) == seq![cleaned_question(trimmed(s))],
{
    let x = seq![d, mark] + s;
    assert forall|i: int| 0 <= i < x.len() implies x[i] != '\n' by {
        if i >= 2 {
            assert(x[i] == s[i - 2]);
        }
    }
    lemma_pieces_without_separator(x, '\n');
    assert(trim_front(x) == x);
    crate::text::lemma_trim_back_cons(mark, s);
    assert(seq![mark].last() == mark);
    assert(trim_back(seq![mark]) == seq![mark]);
    let tail = seq![mark] + trim_back(s);
    assert(trim_back(seq![mark] + s) =~= tail) by {
        if trim_back(s).len() == 0 {
            assert(tail =~= seq![mark]);
        }
    }
    crate::text::lemma_trim_back_cons(d, seq![mark] + s);
    assert(x =~= seq![d] + (seq![mark] + s));
    let t = seq![d, mark] + trim_back(s);
    assert(trim_back(x) =~= t);
    assert(trimmed(x) == t);
    assert(t.skip(2) =~= trim_back(s));
    crate::text::lemma_trimmed_after_trim_back(s);
    assert(strip_line_number(t) == trimmed(s));
    assert(seq![x].drop_last() =~= Seq::<Seq<char>>::empty());
    assert(seq![x].last() == x);
    assert(line_questions(Seq::<Seq<char>>::empty()) == Seq::<Seq<char>>::empty());
    assert(t.len() > 0);
    assert(line_questions(seq![x]) == Seq::<Seq<char>>::empty().push(cleaned_question(trimmed(s))));
    assert(Seq::<Seq<char>>::empty().push(cleaned_question(trimmed(s))) =~= seq![cleaned_question(trimmed(s))]);
}

fn line_number_stripped(t: &Vec<char>) -> (r: Vec<char>)
    ensures
        r@ == strip_line_number(t@),
{
    if t.len() > 1 && is_numeric(t[0]) && (t[1] == '.' || t[1] == ')') {
        let rest = chars_between(t.as_slice(), 2, t.len());
        proof {
            assert(rest@ =~= t@.skip(2));
        }
        trim_chars(rest.as_slice())
    } else {
        chars_between(t.as_slice(), 0, t.len())
    }
}

fn is_question_like(cl: &Vec<char>) -> (r: bool)
    ensures
        r == question_like(cl@),
{
    let ends_q = cl.len() > 0 && cl[cl.len() - 1] == '?';
    let text = string_from_chars(cl.as_slice());
    let lowered = to_lowercase(text.as_str());
    let l = lowered.as_str();
    ends_q || contains(l, "what") || contains(l, "how") || contains(l, "should we") || contains(
        l,
        "could we",
    ) || contains(l, "might we") || crate::text::utf8_len(cl) > 20
}

/// Pulls the questions out of a free text. Lines (split at `\n`; a `\r`
/// before it is whitespace and trimmed away, as `str::lines` drops it) are
/// trimmed, empty ones skipped, a leading one-character number with `.` or
/// `)` removed, and a line is kept, cleaned, when it ends with `?`, speaks of
/// what, how, should we, could we or might we, or is longer than twenty
/// bytes. When no line is kept, every trimmed sentence (split at `.`) longer
/// than twenty bytes is kept, cleaned.
pub fn extract_questions_from_text(text: &str) -> (r: Vec<String>)
    ensures
        texts_of(r@) == extracted_questions(text@),
{
    let cs = chars_of(text);
    let lines = split_at_char(&cs, '\n');
    let mut questions: Vec<String> = Vec::new();
    let n = lines.len();
    for i in 0..n
        invariant
            n == lines@.len(),
            texts_of(questions@) == line_questions(texts_of(lines@).take(i as int)),
    {
        proof {
            assert(texts_of(lines@).take(i + 1).drop_last() =~= texts_of(lines@).take(i as int));
        }
        let lc = chars_of(lines[i].as_str());
        let t = trim_chars(lc.as_slice());
        if t.len() > 0 {
            let cl = line_number_stripped(&t);
            if is_question_like(&cl) {
                let text_cl = string_from_chars(cl.as_slice());
                let q = clean_question_text(text_cl.as_str());
                let ghost before = texts_of(questions@);
                questions.push(q);
                proof {
                    assert(texts_of(questions@) =~= before.push(q@));
                }
            }
        }
    }
    proof {
        assert(texts_of(lines@).take(n as int) =~= texts_of(lines@));
    }
    if questions.len() > 0 {
        return questions;
    }
    let sentences = split_at_char(&cs, '.');
    let m = sentences.len();
    let mut found: Vec<String> = Vec::new();
    for i in 0..m
        invariant
            m == sentences@.len(),
            texts_of(found@) == sentence_questions(texts_of(sentences@).take(i as int)),
    {
        proof {
            assert(texts_of(sentences@).take(i + 1).drop_last() =~= texts_of(sentences@).take(
                i as int,
            ));
        }
        let sc = chars_of(sentences[i].as_str());
        let t = trim_chars(sc.as_slice());
        if crate::text::utf8_len(&t) > 20 {
            let text_t = string_from_chars(t.as_slice());
            let q = clean_question_text(text_t.as_str());
            let ghost before = texts_of(found@);
            found.push(q);
            proof {
                assert(texts_of(found@) =~= before.push(q@));
            }
        }
    }
    proof {
        assert(texts_of(sentences@).take(m as int) =~= texts_of(sentences@));
    }
    found
}


/// A planning question drawn from a story, before it is given an identifier.
#[derive(Debug, Clone)]
pub struct QuestionDraft {
    pub question: String,
    pub context: String,
    pub question_type: PlanningQuestionType,
    pub priority: QuestionPriority,
    /// Drawn from what an engine wrote.
    pub generated_by_ai: bool,
    /// Asked by the user directly.
    pub user_initiated: bool,
    /// The questions to be answered first.
    pub dependencies: Vec<u128>,
}

/// `i` is the first position of a node with identifier `id`.
pub open spec fn is_first_node(nodes: Seq<StoryNode>, id: u128, i: int) -> bool {
    0 <= i < nodes.len() && nodes[i].id == id && forall|j: int| 0 <= j < i ==> nodes[j].id != id
}

/// The root node of a story: the first node carrying the root identifier.
pub open spec fn root_node(g: StoryGraph) -> Option<StoryNode> {
    match g.root_node_id {
        Some(r) => if exists|i: int| is_first_node(g.nodes@, r, i) {
            Some(g.nodes@[choose|i: int| is_first_node(g.nodes@, r, i)])
        } else {
            None
        },
        None => None,
    }
}

/// Draft `d` asks `question` of the given kind, in `context`, with high
/// priority, drawn from an engine's text.
pub open spec fn draft_is(
    d: QuestionDraft,
    question: Seq<char>,
    context: Seq<char>,
    kind: PlanningQuestionType,
) -> bool {
    &&& d.question@ == question
    &&& d.context@ == context
    &&& d.question_type == kind
    &&& d.priority == QuestionPriority::High
    &&& d.generated_by_ai
    &&& !d.user_initiated
    &&& d.dependencies@.len() == 0
}

/// The drafts a root node yields: one per choice (its cleaned text, its kind
/// judged from the raw text), or, when it offers no choices, one per
/// question extracted from its situation; all set in the situation.
pub open spec fn drafts_from_node(r: Seq<QuestionDraft>, n: StoryNode) -> bool {
    if n.choices@.len() > 0 {
        &&& r.len() == n.choices@.len()
        &&& forall|k: int|
            0 <= k < r.len() ==> draft_is(
                #[trigger] r[k],
                cleaned_question(n.choices@[k].description@),
                n.situation@,
                question_type_for(lowercase_text(n.choices@[k].description@)),
            )
    } else {
        let qs = extracted_questions(n.situation@);
        &&& r.len() == qs.len()
        &&& forall|k: int|
            0 <= k < r.len() ==> draft_is(
                #[trigger] r[k],
                qs[k],
                n.situation@,
                question_type_for(lowercase_text(qs[k])),
            )
    }
}

/// The opening questions of a planning session, drawn from the root node of
/// a generated story; none when the story has no root node.
pub fn questions_from_story(story: &StoryGraph) -> (r: Vec<QuestionDraft>)
    ensures
        match root_node(*story) {
            None => r@.len() == 0,
            Some(n) => drafts_from_node(r@, n),
        },
{
    let mut drafts: Vec<QuestionDraft> = Vec::new();
    let root_id = match story.root_node_id {
        Some(id) => id,
        None => {
            return drafts;
        },
    };
    let n = story.nodes.len();
    let mut found: Option<usize> = None;
    for i in 0..n
        invariant
            n == story.nodes@.len(),
            found matches Some(f) ==> is_first_node(story.nodes@, root_id, f as int),
            found is None ==> forall|j: int| 0 <= j < i ==> story.nodes@[j].id != root_id,
    {
        if found.is_none() && story.nodes[i].id == root_id {
            found = Some(i);
        }
    }
    let f = match found {
        Some(f) => f,
        None => {
            return drafts;
        },
    };
    proof {
        let k = choose|k: int| is_first_node(story.nodes@, root_id, k);
        if k < f {
            assert(story.nodes@[k].id != root_id);
        }
        if f < k {
            assert(story.nodes@[f as int].id != root_id);
        }
    }
    let node = &story.nodes[f];
    let m = node.choices.len();
    if m > 0 {
        for k in 0..m
            invariant
                m == node.choices@.len(),
                drafts@.len() == k,
                forall|k2: int|
                    0 <= k2 < k ==> draft_is(
                        #[trigger] drafts@[k2],
                        cleaned_question(node.choices@[k2].description@),
                        node.situation@,
                        question_type_for(lowercase_text(node.choices@[k2].description@)),
                    ),
        {
            let d = node.choices[k].description.as_str();
            let draft = QuestionDraft {
                question: clean_question_text(d),
                context: node.situation.clone(),
                question_type: infer_question_type(d),
                priority: QuestionPriority::High,
                generated_by_ai: true,
                user_initiated: false,
                dependencies: Vec::new(),
            };
            drafts.push(draft);
        }
    } else {
        let qs = extract_questions_from_text(node.situation.as_str());
        let q = qs.len();
        for k in 0..q
            invariant
                q == qs@.len(),
                texts_of(qs@) == extracted_questions(node.situation@),
                drafts@.len() == k,
                forall|k2: int|
                    0 <= k2 < k ==> draft_is(
                        #[trigger] drafts@[k2],
                        qs@[k2]@,
                        node.situation@,
                        question_type_for(lowercase_text(qs@[k2]@)),
                    ),
        {
            let draft = QuestionDraft {
                question: qs[k].clone(),
                context: node.situation.clone(),
                question_type: infer_question_type(qs[k].as_str()),
                priority: QuestionPriority::High,
                generated_by_ai: true,
                user_initiated: false,
                dependencies: Vec::new(),
            };
            drafts.push(draft);
        }
        proof {
            assert forall|k2: int| 0 <= k2 < q implies qs@[k2]@ == extracted_questions(
                node.situation@,
            )[k2] by {
                assert(texts_of(qs@)[k2] == qs@[k2]@);
            }
        }
    }
    drafts
}

/// The title of a planning session about a project.
pub fn session_title(project_description: &str) -> (r: String)
    ensures
        r@ == "Planning Session: "@ + project_description@,
{
    crate::text::concat2("Planning Session: ", project_description)
}


/// What a failed request was asking for.
#[derive(Debug)]
pub enum RequestType {
    InitialQuestions,
    ExploreQuestion { question_id: u128 },
    DeepenAnswer { answer_id: u128 },
    GenerateFollowUps { answer_id: u128 },
    CustomQuestion { question_text: String },
}

/// A request that failed and may be tried again.
#[derive(Debug)]
pub struct PendingRequest {
    pub id: u128,
    pub request_type: RequestType,
    pub context: String,
    pub user_input: Option<String>,
    pub error_message: String,
    pub retry_count: u32,
    pub created_at: String,
    pub last_attempt: String,
}

impl Clone for RequestType {
    fn clone(&self) -> (r: Self)
        ensures
            r == *self,
    {
        match self {
            RequestType::InitialQuestions => RequestType::InitialQuestions,
            RequestType::ExploreQuestion { question_id } => RequestType::ExploreQuestion {
                question_id: *question_id,
            },
            RequestType::DeepenAnswer { answer_id } => RequestType::DeepenAnswer { answer_id: *answer_id },
            RequestType::GenerateFollowUps { answer_id } => RequestType::GenerateFollowUps {
                answer_id: *answer_id,
            },
            RequestType::CustomQuestion { question_text } => RequestType::CustomQuestion {
                question_text: question_text.clone(),
            },
        }
    }
}

impl Clone for PendingRequest {
    fn clone(&self) -> (r: Self)
        ensures
            r == *self,
    {
        PendingRequest {
            id: self.id,
            request_type: self.request_type.clone(),
            context: self.context.clone(),
            user_input: match &self.user_input {
                Some(u) => Some(u.clone()),
                None => None,
            },
            error_message: self.error_message.clone(),
            retry_count: self.retry_count,
            created_at: self.created_at.clone(),
            last_attempt: self.last_attempt.clone(),
        }
    }
}

/// How many times a request is retried at most.
pub const MAX_RETRIES: u32 = 3;

/// The request filed under `id`; a later entry under the same identifier
/// hides an earlier one.
pub open spec fn pending_of(v: Seq<PendingRequest>, id: u128) -> Option<PendingRequest>
    decreases v.len(),
{
    if v.len() == 0 {
        None
    } else if v.last().id == id {
        Some(v.last())
    } else {
        pending_of(v.drop_last(), id)
    }
}

proof fn lemma_pending_update(v: Seq<PendingRequest>, i: int, e: PendingRequest, k: u128)
    requires
        0 <= i < v.len(),
        v[i].id == e.id,
        forall|j: int| i < j < v.len() ==> v[j].id != e.id,
    ensures
        pending_of(v.update(i, e), k) == if k == e.id {
            Some(e)
        } else {
            pending_of(v, k)
        },
    decreases v.len(),
{
    let u = v.update(i, e);
    if i == v.len() - 1 {
        assert(u.drop_last() =~= v.drop_last());
    } else {
        assert(u.drop_last() =~= v.drop_last().update(i, e));
        lemma_pending_update(v.drop_last(), i, e, k);
    }
}

/// Position of the last entry under `id`.
fn last_with_id(v: &Vec<PendingRequest>, id: u128) -> (r: Option<usize>)
    ensures
        match r {
            Some(i) => i < v@.len() && v@[i as int].id == id && forall|j: int|
                i < j < v@.len() ==> v@[j].id != id,
            None => forall|j: int| 0 <= j < v@.len() ==> v@[j].id != id,
        },
{
    let n = v.len();
    let mut i = n;
    while i > 0
        invariant
            n == v@.len(),
            i <= n,
            forall|j: int| i <= j < n ==> v@[j].id != id,
        decreases i,
    {
        if v[i - 1].id == id {
            return Some(i - 1);
        }
        i = i - 1;
    }
    None
}

proof fn lemma_pending_absent(v: Seq<PendingRequest>, id: u128)
    requires
        forall|j: int| 0 <= j < v.len() ==> v[j].id != id,
    ensures
        pending_of(v, id) is None,
    decreases v.len(),
{
    if v.len() > 0 {
        lemma_pending_absent(v.drop_last(), id);
    }
}

proof fn lemma_pending_found(v: Seq<PendingRequest>, i: int, id: u128)
    requires
        0 <= i < v.len(),
        v[i].id == id,
        forall|j: int| i < j < v.len() ==> v[j].id != id,
    ensures
        pending_of(v, id) == Some(v[i]),
    decreases v.len(),
{
    if i < v.len() - 1 {
        lemma_pending_found(v.drop_last(), i, id);
    }
}

/// No identifier is filed twice.
pub open spec fn request_ids_unique(v: Seq<PendingRequest>) -> bool {
    forall|i: int, j: int| 0 <= i < j < v.len() ==> (#[trigger] v[i]).id != (#[trigger] v[j]).id
}

/// Files `req` under its identifier, replacing what was filed there.
fn file_request(pending: &mut Vec<PendingRequest>, req: PendingRequest)
    ensures
        request_ids_unique(old(pending)@) ==> request_ids_unique(final(pending)@),
        forall|k: u128|
            #[trigger] pending_of(final(pending)@, k) == if k == req.id {
                Some(req)
            } else {
                pending_of(old(pending)@, k)
            },
{
    let ghost before = pending@;
    match last_with_id(pending, req.id) {
        Some(i) => {
            proof {
                assert forall|k: u128| #[trigger] pending_of(before.update(i as int, req), k) == (if k
                    == req.id {
                    Some(req)
                } else {
                    pending_of(before, k)
                }) by {
                    lemma_pending_update(before, i as int, req, k);
                }
            }
            pending.set(i, req);
            proof {
                if request_ids_unique(before) {
                    assert forall|a: int, b: int| 0 <= a < b < pending@.len() implies (#[trigger] pending@[a]).id
                        != (#[trigger] pending@[b]).id by {
                        if a != i && b != i {
                            assert(before[a].id != before[b].id);
                        } else if a == i {
                            assert(before[a].id != before[b].id);
                        } else {
                            assert(before[a].id != before[b].id);
                        }
                    }
                }
            }
        },
        None => {
            pending.push(req);
            proof {
                assert(pending@.drop_last() =~= before);
                if request_ids_unique(before) {
                    assert forall|a: int, b: int| 0 <= a < b < pending@.len() implies (#[trigger] pending@[a]).id
                        != (#[trigger] pending@[b]).id by {
                        if b < before.len() {
                            assert(before[a].id != before[b].id);
                        } else {
                            assert(before[a].id != req.id);
                        }
                    }
                }
            }
        },
    }
}

/// Records a failed request for a later retry, under a fresh random
/// identifier, which it returns; it has not been retried yet.
pub fn add_pending_request(
    pending: &mut Vec<PendingRequest>,
    request_type: RequestType,
    context: String,
    user_input: Option<String>,
    error_message: String,
) -> (id: u128)
    ensures
        request_ids_unique(old(pending)@) ==> request_ids_unique(final(pending)@),
        pending_of(final(pending)@, id) matches Some(p) && p.request_type == request_type
            && p.context == context && p.user_input == user_input && p.error_message
            == error_message && p.retry_count == 0,
        forall|k: u128| k != id ==> pending_of(final(pending)@, k) == pending_of(old(pending)@, k),
{
    let id = crate::ids::fresh_id();
    let now = crate::ticket::now_rfc3339();
    let req = PendingRequest {
        id,
        request_type,
        context,
        user_input,
        error_message,
        retry_count: 0,
        created_at: now.clone(),
        last_attempt: now,
    };
    file_request(pending, req);
    id
}

/// The entry at position `i` is not hidden by a later entry under the same
/// identifier.
pub open spec fn shown(v: Seq<PendingRequest>, i: int) -> bool {
    forall|j: int| i < j < v.len() ==> v[j].id != v[i].id
}

proof fn lemma_pending_some(v: Seq<PendingRequest>, k: u128)
    requires
        pending_of(v, k) is Some,
    ensures
        exists|i: int|
            0 <= i < v.len() && v[i].id == k && shown(v, i) && pending_of(v, k) == Some(#[trigger] v[i]),
    decreases v.len(),
{
    if v.last().id == k {
        let i = v.len() - 1;
        assert(v[i].id == k && shown(v, i) && pending_of(v, k) == Some(v[i]));
    } else {
        lemma_pending_some(v.drop_last(), k);
        let w = v.drop_last();
        let i = choose|i: int| 0 <= i < w.len() && w[i].id == k && shown(w, i) && pending_of(w, k) == Some(#[trigger] w[i]);
        assert(v[i] == w[i]);
        assert forall|j: int| i < j < v.len() implies v[j].id != v[i].id by {
            if j < w.len() {
                assert(v[j] == w[j]);
            }
        }
        assert(v[i].id == k && shown(v, i) && pending_of(v, k) == Some(v[i]));
    }
}

/// The filed requests that may still be retried (fewer than three retries),
/// each once, in filing order: every one is what is filed under its
/// identifier, no identifier comes twice, and every filed request with fewer
/// than three retries is among them.
pub fn get_retryable_requests(pending: &Vec<PendingRequest>) -> (r: Vec<&PendingRequest>)
    ensures
        forall|a: int|
            0 <= a < r@.len() ==> pending_of(pending@, (#[trigger] r@[a]).id) == Some(*r@[a])
                && r@[a].retry_count < MAX_RETRIES,
        forall|a: int, b: int| 0 <= a < b < r@.len() ==> (#[trigger] r@[a]).id != (#[trigger] r@[b]).id,
        forall|k: u128|
            #[trigger] pending_of(pending@, k) is Some && pending_of(pending@, k)->0.retry_count
                < MAX_RETRIES ==> exists|a: int| 0 <= a < r@.len() && *r@[a] == pending_of(pending@, k)->0,
{
    let mut out: Vec<&PendingRequest> = Vec::new();
    let n = pending.len();
    let ghost v = pending@;
    let ghost mut idx: Seq<int> = Seq::empty();
    for i in 0..n
        invariant
            n == v.len(),
            v == pending@,
            idx.len() == out@.len(),
            forall|a: int|
                0 <= a < idx.len() ==> 0 <= #[trigger] idx[a] < i && shown(v, idx[a]) && v[idx[a]].retry_count
                    < MAX_RETRIES && *out@[a] == v[idx[a]],
            forall|a: int, b: int| 0 <= a < b < idx.len() ==> #[trigger] idx[a] < #[trigger] idx[b],
            forall|j: int|
                0 <= j < i && shown(v, j) && (#[trigger] v[j]).retry_count < MAX_RETRIES ==> exists|a: int|
                    0 <= a < idx.len() && idx[a] == j,
    {
        let id = pending[i].id;
        let mut hidden = false;
        let mut j = i + 1;
        while j < n
            invariant
                i < n == pending@.len(),
                i + 1 <= j <= n,
                id == pending@[i as int].id,
                hidden <==> exists|k: int| i < k < j && #[trigger] pending@[k].id == id,
            decreases n - j,
        {
            if pending[j].id == id {
                hidden = true;
            }
            j = j + 1;
        }
        proof {
            if hidden {
                let k = choose|k: int| i < k < n && #[trigger] pending@[k].id == id;
                assert(!shown(v, i as int));
            }
        }
        if !hidden && pending[i].retry_count < MAX_RETRIES {
            out.push(&pending[i]);
            proof {
                let old_idx = idx;
                idx = idx.push(i as int);
                assert forall|jj: int|
                    0 <= jj < i + 1 && shown(v, jj) && (#[trigger] v[jj]).retry_count < MAX_RETRIES implies exists|a: int|
                        0 <= a < idx.len() && idx[a] == jj by {
                    if jj == i {
                        assert(idx[idx.len() - 1] == jj);
                    } else {
                        let a = choose|a: int| 0 <= a < old_idx.len() && old_idx[a] == jj;
                        assert(idx[a] == jj);
                    }
                }
            }
        } else {
            proof {
                assert forall|jj: int|
                    0 <= jj < i + 1 && shown(v, jj) && (#[trigger] v[jj]).retry_count < MAX_RETRIES implies exists|a: int|
                        0 <= a < idx.len() && idx[a] == jj by {
                    if jj == i {
                        assert(false);
                    }
                }
            }
        }
    }
    proof {
        assert forall|a: int| 0 <= a < out@.len() implies pending_of(pending@, (#[trigger] out@[a]).id) == Some(
            *out@[a],
        ) && out@[a].retry_count < MAX_RETRIES by {
            let i = idx[a];
            lemma_pending_found(v, i, v[i].id);
        }
        assert forall|a: int, b: int| 0 <= a < b < out@.len() implies (#[trigger] out@[a]).id != (
        #[trigger] out@[b]).id by {
            assert(idx[a] < idx[b]);
            assert(shown(v, idx[a]));
        }
        assert forall|k: u128|
            #[trigger] pending_of(pending@, k) is Some && pending_of(pending@, k)->0.retry_count < MAX_RETRIES implies exists|
                a: int,
            | 0 <= a < out@.len() && *out@[a] == pending_of(pending@, k)->0 by {
            lemma_pending_some(v, k);
            let j = choose|j: int|
                0 <= j < v.len() && v[j].id == k && shown(v, j) && pending_of(v, k) == Some(#[trigger] v[j]);
            assert(v[j].retry_count < MAX_RETRIES);
            let a = choose|a: int| 0 <= a < idx.len() && idx[a] == j;
            assert(*out@[a] == v[j]);
        }
    }
    out
}

/// Starts another try of the request filed under `request_id`: counts the
/// try, stamps it, and hands back what it asks for and its context; an error
/// when nothing is filed there.
pub fn begin_retry(pending: &mut Vec<PendingRequest>, request_id: u128) -> (r: Result<
    (RequestType, String),
    String,
>)
    requires
        pending_of(old(pending)@, request_id) matches Some(p) ==> p.retry_count < u32::MAX,
    ensures
        request_ids_unique(old(pending)@) ==> request_ids_unique(final(pending)@),
        match pending_of(old(pending)@, request_id) {
            None => {
                &&& r matches Err(e) && e@ == "Pending request not found"@
                &&& final(pending)@ == old(pending)@
            },
            Some(p) => {
                &&& r matches Ok((t, c)) && t == p.request_type && c == p.context
                &&& pending_of(final(pending)@, request_id) matches Some(q) && q.retry_count
                    == p.retry_count + 1 && q.request_type == p.request_type && q.context
                    == p.context && q.user_input == p.user_input && q.error_message
                    == p.error_message && q.id == p.id
            },
        },
        forall|k: u128|
            k != request_id ==> pending_of(final(pending)@, k) == pending_of(old(pending)@, k),
{
    match last_with_id(pending, request_id) {
        None => {
            proof {
                lemma_pending_absent(pending@, request_id);
            }
            Err(owned("Pending request not found"))
        },
        Some(i) => {
            proof {
                lemma_pending_found(pending@, i as int, request_id);
            }
            let old_req = &pending[i];
            let updated = PendingRequest {
                id: old_req.id,
                request_type: old_req.request_type.clone(),
                context: old_req.context.clone(),
                user_input: match &old_req.user_input {
                    Some(u) => Some(u.clone()),
                    None => None,
                },
                error_message: old_req.error_message.clone(),
                retry_count: old_req.retry_count + 1,
                created_at: old_req.created_at.clone(),
                last_attempt: crate::ticket::now_rfc3339(),
            };
            let t = old_req.request_type.clone();
            let c = old_req.context.clone();
            file_request(pending, updated);
            Ok((t, c))
        },
    }
}

/// How a retried request ended.
#[derive(Debug)]
pub enum AttemptOutcome {
    Succeeded,
    Failed { retryable: bool, message: String },
    MissingAnswer,
}

/// Closes a try of the request filed under `request_id`. A success removes
/// the request; a failure worth another try records its message on the
/// request and is still failing; any other failure is permanent, and so is a
/// request whose answer has gone.
pub fn finish_retry(pending: &mut Vec<PendingRequest>, request_id: u128, outcome: AttemptOutcome) -> (r:
    RetryResult)
    ensures
        request_ids_unique(old(pending)@) ==> request_ids_unique(final(pending)@),
        match outcome {
            AttemptOutcome::Succeeded => r is Success && pending_of(final(pending)@, request_id) is None,
            AttemptOutcome::Failed { retryable, message } => if retryable {
                &&& r matches RetryResult::StillFailing(m) && m == message
                &&& match pending_of(old(pending)@, request_id) {
                    Some(p) => pending_of(final(pending)@, request_id) matches Some(q)
                        && q.error_message == message && q.retry_count == p.retry_count && q.context
                        == p.context && q.request_type == p.request_type,
                    None => pending_of(final(pending)@, request_id) is None,
                }
            } else {
                &&& r matches RetryResult::PermanentFailure(m) && m == message
                &&& final(pending)@ == old(pending)@
            },
            AttemptOutcome::MissingAnswer => {
                &&& r matches RetryResult::PermanentFailure(m) && m@ == "Answer not found"@
                &&& final(pending)@ == old(pending)@
            },
        },
        forall|k: u128|
            k != request_id ==> pending_of(final(pending)@, k) == pending_of(old(pending)@, k),
{
    match outcome {
        AttemptOutcome::Succeeded => {
            remove_request(pending, request_id);
            RetryResult::Success
        },
        AttemptOutcome::Failed { retryable, message } => {
            if retryable {
                match last_with_id(pending, request_id) {
                    Some(i) => {
                        proof {
                            lemma_pending_found(pending@, i as int, request_id);
                        }
                        let old_req = &pending[i];
                        let updated = PendingRequest {
                            id: old_req.id,
                            request_type: old_req.request_type.clone(),
                            context: old_req.context.clone(),
                            user_input: match &old_req.user_input {
                                Some(u) => Some(u.clone()),
                                None => None,
                            },
                            error_message: message.clone(),
                            retry_count: old_req.retry_count,
                            created_at: old_req.created_at.clone(),
                            last_attempt: old_req.last_attempt.clone(),
                        };
                        file_request(pending, updated);
                    },
                    None => {
                        proof {
                            lemma_pending_absent(pending@, request_id);
                        }
                    },
                }
                RetryResult::StillFailing(message)
            } else {
                RetryResult::PermanentFailure(message)
            }
        },
        AttemptOutcome::MissingAnswer => RetryResult::PermanentFailure(owned("Answer not found")),
    }
}

/// Drops every entry filed under `request_id`.
fn remove_request(pending: &mut Vec<PendingRequest>, request_id: u128)
    ensures
        pending_of(final(pending)@, request_id) is None,
        request_ids_unique(old(pending)@) ==> request_ids_unique(final(pending)@),
        forall|k: u128|
            k != request_id ==> pending_of(final(pending)@, k) == pending_of(old(pending)@, k),
{
    let mut kept: Vec<PendingRequest> = Vec::new();
    let n = pending.len();
    let ghost before = pending@;
    let ghost mut src: Seq<int> = Seq::empty();
    for i in 0..n
        invariant
            n == before.len(),
            src.len() == kept@.len(),
            forall|a: int| 0 <= a < src.len() ==> 0 <= #[trigger] src[a] < i && kept@[a].id == before[src[a]].id,
            request_ids_unique(before) ==> request_ids_unique(kept@),
            *pending == *old(pending),
            before == pending@,
            forall|k: u128|
                #[trigger] pending_of(kept@, k) == if k == request_id {
                    None
                } else {
                    pending_of(before.take(i as int), k)
                },
    {
        proof {
            assert(before.take(i + 1).drop_last() =~= before.take(i as int));
            assert(before.take(i + 1).last() == before[i as int]);
        }
        let ghost prev = kept@;
        if pending[i].id != request_id {
            kept.push(pending[i].clone());
            proof {
                assert(kept@.drop_last() =~= prev);
                let old_src = src;
                src = src.push(i as int);
                if request_ids_unique(before) {
                    assert forall|x: int, y: int| 0 <= x < y < kept@.len() implies (#[trigger] kept@[x]).id
                        != (#[trigger] kept@[y]).id by {
                        if y < prev.len() {
                            assert(prev[x] == kept@[x] && prev[y] == kept@[y]);
                        } else {
                            assert(prev[x] == kept@[x]);
                            assert(old_src[x] < i);
                            assert(before[old_src[x]].id != before[i as int].id);
                        }
                    }
                }
                assert forall|x: int| 0 <= x < src.len() implies 0 <= #[trigger] src[x] < i + 1 && kept@[x].id
                    == before[src[x]].id by {
                    if x < prev.len() {
                        assert(prev[x] == kept@[x]);
                        assert(src[x] == old_src[x]);
                    }
                }
            }
        }
        proof {
            assert forall|k: u128| #[trigger] pending_of(kept@, k) == (if k == request_id {
                None
            } else {
                pending_of(before.take(i + 1), k)
            }) by {
                assert(pending_of(prev, k) == (if k == request_id {
                    None
                } else {
                    pending_of(before.take(i as int), k)
                }));
                if before[i as int].id != request_id {
                    assert(kept@.last() == before[i as int]);
                    assert(kept@.drop_last() =~= prev);
                } else {
                    assert(kept@ == prev);
                }
            }
        }
    }
    proof {
        assert(before.take(n as int) =~= before);
    }
    *pending = kept;
}


/// The follow-up questions drawn from the options an engine offered while
/// exploring an answer: each option's text as a question of medium priority,
/// its kind judged from the text, set in the answer being explored, and
/// depending on the question that answer answers.
pub fn follow_up_drafts(choices: &Vec<Choice>, answer_text: &str, question_id: u128) -> (r: Vec<QuestionDraft>)
    ensures
        r@.len() == choices@.len(),
        forall|k: int|
            0 <= k < r@.len() ==> {
                &&& (#[trigger] r@[k]).question@ == choices@[k].description@
                &&& r@[k].context@ == "Follow-up from exploring: "@ + answer_text@
                &&& r@[k].question_type == question_type_for(lowercase_text(choices@[k].description@))
                &&& r@[k].priority == QuestionPriority::Medium
                &&& r@[k].generated_by_ai && !r@[k].user_initiated
                &&& r@[k].dependencies@ == seq![question_id]
            },
{
    let mut out: Vec<QuestionDraft> = Vec::new();
    let n = choices.len();
    for k in 0..n
        invariant
            n == choices@.len(),
            out@.len() == k,
            forall|j: int|
                0 <= j < k ==> {
                    &&& (#[trigger] out@[j]).question@ == choices@[j].description@
                    &&& out@[j].context@ == "Follow-up from exploring: "@ + answer_text@
                    &&& out@[j].question_type == question_type_for(
                        lowercase_text(choices@[j].description@),
                    )
                    &&& out@[j].priority == QuestionPriority::Medium
                    &&& out@[j].generated_by_ai && !out@[j].user_initiated
                    &&& out@[j].dependencies@ == seq![question_id]
                },
    {
        let d = &choices[k].description;
        out.push(
            QuestionDraft {
                question: d.clone(),
                context: crate::text::concat2("Follow-up from exploring: ", answer_text),
                question_type: infer_question_type(d.as_str()),
                priority: QuestionPriority::Medium,
                generated_by_ai: true,
                user_initiated: false,
                dependencies: vec![question_id],
            },
        );
    }
    out
}

/// Draft `d` is the question the user asked directly as `text`: a
/// requirements question of medium priority, user-initiated.
pub open spec fn is_custom_draft(d: QuestionDraft, text: Seq<char>) -> bool {
    &&& d.question@ == text
    &&& d.context@ == "User-generated question"@
    &&& d.question_type == PlanningQuestionType::Requirements
    &&& d.priority == QuestionPriority::Medium
    &&& !d.generated_by_ai
    &&& d.user_initiated
    &&& d.dependencies@.len() == 0
}

/// A question the user asked directly: a requirements question of medium
/// priority.
pub fn custom_question(question_text: &str) -> (r: QuestionDraft)
    ensures
        is_custom_draft(r, question_text@),
{
    QuestionDraft {
        question: owned(question_text),
        context: owned("User-generated question"),
        question_type: PlanningQuestionType::Requirements,
        priority: QuestionPriority::Medium,
        generated_by_ai: false,
        user_initiated: true,
        dependencies: Vec::new(),
    }
}

/// Files the question the user asked as `question_text` under `question_id`
/// at the end of a session's questions.
pub fn add_custom_question(questions: &mut Vec<(u128, QuestionDraft)>, question_id: u128, question_text: &str)
    ensures
        final(questions)@.len() == old(questions)@.len() + 1,
        final(questions)@.drop_last() == old(questions)@,
        final(questions)@.last().0 == question_id,
        is_custom_draft(final(questions)@.last().1, question_text@),
{
    let d = custom_question(question_text);
    questions.push((question_id, d));
    proof {
        assert(questions@.drop_last() =~= old(questions)@);
    }
}

/// What a retry leaves to its caller.
#[derive(Debug)]
pub enum RetryStep {
    /// The retry is over, with this result.
    Done(RetryResult),
    /// The engine is to be asked again for this request, in this context;
    /// the caller closes the try with `finish_retry`.
    AskEngine(RequestType, String),
}

/// Retries the request filed under `request_id`: an error when nothing is
/// filed there. Otherwise the try is counted; a question the user asked
/// needs no engine, so it is filed among the session's questions under a
/// fresh identifier and the request is done and removed; any other request
/// is handed back to be put to the engine again.
pub fn retry_request(
    questions: &mut Vec<(u128, QuestionDraft)>,
    pending: &mut Vec<PendingRequest>,
    request_id: u128,
) -> (r: Result<RetryStep, String>)
    requires
        pending_of(old(pending)@, request_id) matches Some(p) ==> p.retry_count < u32::MAX,
    ensures
        request_ids_unique(old(pending)@) ==> request_ids_unique(final(pending)@),
        match pending_of(old(pending)@, request_id) {
            None => {
                &&& r matches Err(e) && e@ == "Pending request not found"@
                &&& final(pending)@ == old(pending)@
                &&& final(questions)@ == old(questions)@
            },
            Some(p) => match p.request_type {
                RequestType::CustomQuestion { question_text } => {
                    &&& r matches Ok(RetryStep::Done(RetryResult::Success))
                    &&& final(questions)@.len() == old(questions)@.len() + 1
                    &&& final(questions)@.drop_last() == old(questions)@
                    &&& is_custom_draft(final(questions)@.last().1, question_text@)
                    &&& pending_of(final(pending)@, request_id) is None
                },
                _ => {
                    &&& r matches Ok(RetryStep::AskEngine(t, c)) && t == p.request_type && c == p.context
                    &&& final(questions)@ == old(questions)@
                    &&& pending_of(final(pending)@, request_id) matches Some(q) && q.retry_count
                        == p.retry_count + 1 && q.request_type == p.request_type && q.context
                        == p.context && q.user_input == p.user_input && q.error_message
                        == p.error_message && q.id == p.id
                },
            },
        },
        forall|k: u128|
            k != request_id ==> pending_of(final(pending)@, k) == pending_of(old(pending)@, k),
{
    match begin_retry(pending, request_id) {
        Err(e) => Err(e),
        Ok((t, c)) => match t {
            RequestType::CustomQuestion { question_text } => {
                let question_id = crate::ids::fresh_id();
                add_custom_question(questions, question_id, question_text.as_str());
                let result = finish_retry(pending, request_id, AttemptOutcome::Succeeded);
                Ok(RetryStep::Done(result))
            },
            other => Ok(RetryStep::AskEngine(other, c)),
        },
    }
}

/// The question filed under `id` among a session's questions; a later entry
/// under the same identifier hides an earlier one.
pub open spec fn question_of(v: Seq<(u128, QuestionDraft)>, id: u128) -> Option<QuestionDraft>
    decreases v.len(),
{
    if v.len() == 0 {
        None
    } else if v.last().0 == id {
        Some(v.last().1)
    } else {
        question_of(v.drop_last(), id)
    }
}

/// Filing new questions after a session's questions files each under its
/// identifier: a new question replaces the one filed under the same
/// identifier, and every other question stays.
pub proof fn law_merged_questions_are_filed_by_id(
    filed: Seq<(u128, QuestionDraft)>,
    incoming: Seq<(u128, QuestionDraft)>,
    id: u128,
)
    ensures
        question_of(filed + incoming, id) == match question_of(incoming, id) {
            Some(q) => Some(q),
            None => question_of(filed, id),
        },
    decreases incoming.len(),
{
    if incoming.len() > 0 {
        assert((filed + incoming).drop_last() =~= filed + incoming.drop_last());
        assert((filed + incoming).last() == incoming.last());
        law_merged_questions_are_filed_by_id(filed, incoming.drop_last(), id);
    } else {
        assert(filed + incoming =~= filed);
    }
}

/// Gives each draft a fresh identifier, keeping their order.
pub fn with_fresh_ids(drafts: Vec<QuestionDraft>) -> (r: Vec<(u128, QuestionDraft)>)
    ensures
        r@.len() == drafts@.len(),
        forall|k: int| 0 <= k < r@.len() ==> (#[trigger] r@[k]).1 == drafts@[k],
{
    let mut rest = drafts;
    let mut out: Vec<(u128, QuestionDraft)> = Vec::new();
    let ghost all = drafts@;
    while rest.len() > 0
        invariant
            out@.len() + rest@.len() == all.len(),
            rest@ == all.skip(out@.len() as int),
            forall|k: int| 0 <= k < out@.len() ==> (#[trigger] out@[k]).1 == all[k],
        decreases rest@.len(),
    {
        let d = rest.remove(0);
        let id = crate::ids::fresh_id();
        out.push((id, d));
        proof {
            assert(rest@ =~= all.skip(out@.len() as int));
        }
    }
    out
}

/// Closes a retried request whose engine call brought new questions: they
/// are filed after the session's questions and the request is done and
/// removed.
pub fn finish_with_questions(
    questions: &mut Vec<(u128, QuestionDraft)>,
    pending: &mut Vec<PendingRequest>,
    request_id: u128,
    incoming: Vec<(u128, QuestionDraft)>,
) -> (r: RetryResult)
    ensures
        request_ids_unique(old(pending)@) ==> request_ids_unique(final(pending)@),
        r is Success,
        final(questions)@ == old(questions)@ + incoming@,
        pending_of(final(pending)@, request_id) is None,
        forall|k: u128|
            k != request_id ==> pending_of(final(pending)@, k) == pending_of(old(pending)@, k),
{
    let mut incoming = incoming;
    questions.append(&mut incoming);
    finish_retry(pending, request_id, AttemptOutcome::Succeeded)
}

/// A planning answer, apart from the scores an engine attaches to it.
#[derive(Debug, Clone)]
pub struct AnswerDraft {
    pub question_id: u128,
    pub answer: String,
    pub exploration_notes: Vec<String>,
    pub follow_up_questions: Vec<u128>,
    pub answer_method: AnswerMethod,
    pub validation_status: AnswerValidation,
    pub expert_review_needed: bool,
}

/// The answers that exploring question `question_id` yields from the options
/// an engine offered: one per option, its text as the answer, reached
/// together and still tentative, with no notes and no follow-ups yet.
pub fn answer_drafts(question_id: u128, choices: &Vec<Choice>) -> (r: Vec<AnswerDraft>)
    ensures
        r@.len() == choices@.len(),
        forall|k: int|
            0 <= k < r@.len() ==> {
                &&& (#[trigger] r@[k]).question_id == question_id
                &&& r@[k].answer@ == choices@[k].description@
                &&& r@[k].exploration_notes@.len() == 0
                &&& r@[k].follow_up_questions@.len() == 0
                &&& r@[k].answer_method == AnswerMethod::Collaborative
                &&& r@[k].validation_status == AnswerValidation::Tentative
                &&& !r@[k].expert_review_needed
            },
{
    let mut out: Vec<AnswerDraft> = Vec::new();
    let n = choices.len();
    for k in 0..n
        invariant
            n == choices@.len(),
            out@.len() == k,
            forall|j: int|
                0 <= j < k ==> {
                    &&& (#[trigger] out@[j]).question_id == question_id
                    &&& out@[j].answer@ == choices@[j].description@
                    &&& out@[j].exploration_notes@.len() == 0
                    &&& out@[j].follow_up_questions@.len() == 0
                    &&& out@[j].answer_method == AnswerMethod::Collaborative
                    &&& out@[j].validation_status == AnswerValidation::Tentative
                    &&& !out@[j].expert_review_needed
                },
    {
        out.push(
            AnswerDraft {
                question_id,
                answer: choices[k].description.clone(),
                exploration_notes: Vec::new(),
                follow_up_questions: Vec::new(),
                answer_method: AnswerMethod::Collaborative,
                validation_status: AnswerValidation::Tentative,
                expert_review_needed: false,
            },
        );
    }
    out
}

/// Deepens an answer with what the engine wrote when the answer was
/// expanded: the text becomes its newest exploration note and the answer
/// counts as discussed; nothing else changes.
pub fn deepen_answer(answer: &mut AnswerDraft, expanded_situation: String)
    ensures
        final(answer).exploration_notes@ == old(answer).exploration_notes@.push(expanded_situation),
        final(answer).validation_status == AnswerValidation::Discussed,
        final(answer).question_id == old(answer).question_id,
        final(answer).answer == old(answer).answer,
        final(answer).follow_up_questions == old(answer).follow_up_questions,
        final(answer).answer_method == old(answer).answer_method,
        final(answer).expert_review_needed == old(answer).expert_review_needed,
{
    answer.exploration_notes.push(expanded_situation);
    answer.validation_status = AnswerValidation::Discussed;
}

/// The outcome of a retried request that failed with `error`, reported as
/// `message`.
pub fn classify_failure(error: &FailureKind, message: String) -> (r: AttemptOutcome)
    ensures
        r matches AttemptOutcome::Failed { retryable, message: m } && m == message && retryable
            == is_retryable_error_spec(*error),
{
    let retryable = is_retryable_error(error);
    AttemptOutcome::Failed { retryable, message }
}

/// Whether a failure is retried (the answer of `is_retryable_error`).
pub open spec fn is_retryable_error_spec(error: FailureKind) -> bool {
    match error {
        FailureKind::AiServiceError { message } => retryable_message(message@),
        FailureKind::Timeout { .. } => true,
        FailureKind::Other => false,
    }
}


/// The name a question kind is shown under.
pub open spec fn question_type_name(t: PlanningQuestionType) -> Seq<char> {
    match t {
        PlanningQuestionType::Requirements => "Requirements"@,
        PlanningQuestionType::Architecture => "Architecture"@,
        PlanningQuestionType::Dependencies => "Dependencies"@,
        PlanningQuestionType::Priorities => "Priorities"@,
        PlanningQuestionType::Constraints => "Constraints"@,
        PlanningQuestionType::Risks => "Risks"@,
        PlanningQuestionType::Implementation => "Implementation"@,
        PlanningQuestionType::Validation => "Validation"@,
    }
}

/// The name a question kind is shown under.
pub fn format_question_type(t: PlanningQuestionType) -> (r: String)
    ensures
        r@ == question_type_name(t),
{
    owned(
        match t {
            PlanningQuestionType::Requirements => "Requirements",
            PlanningQuestionType::Architecture => "Architecture",
            PlanningQuestionType::Dependencies => "Dependencies",
            PlanningQuestionType::Priorities => "Priorities",
            PlanningQuestionType::Constraints => "Constraints",
            PlanningQuestionType::Risks => "Risks",
            PlanningQuestionType::Implementation => "Implementation",
            PlanningQuestionType::Validation => "Validation",
        },
    )
}

/// How a failed request is described.
pub open spec fn request_type_text(t: RequestType) -> Seq<char> {
    match t {
        RequestType::InitialQuestions => "Generate Initial Questions"@,
        RequestType::ExploreQuestion { question_id } => "Explore Question "@ + id_text(question_id),
        RequestType::DeepenAnswer { answer_id } => "Deepen Answer "@ + id_text(answer_id),
        RequestType::GenerateFollowUps { answer_id } => "Generate Follow-ups for "@ + id_text(answer_id),
        RequestType::CustomQuestion { question_text } => "Custom Question: "@ + question_text@,
    }
}

/// Describes a failed request.
pub fn format_request_type(request_type: &RequestType) -> (r: String)
    ensures
        r@ == request_type_text(*request_type),
{
    match request_type {
        RequestType::InitialQuestions => owned("Generate Initial Questions"),
        RequestType::ExploreQuestion { question_id } => {
            let mut r = owned("Explore Question ");
            append_str(&mut r, write_id(*question_id).as_str());
            r
        },
        RequestType::DeepenAnswer { answer_id } => {
            let mut r = owned("Deepen Answer ");
            append_str(&mut r, write_id(*answer_id).as_str());
            r
        },
        RequestType::GenerateFollowUps { answer_id } => {
            let mut r = owned("Generate Follow-ups for ");
            append_str(&mut r, write_id(*answer_id).as_str());
            r
        },
        RequestType::CustomQuestion { question_text } => {
            let mut r = owned("Custom Question: ");
            append_str(&mut r, question_text.as_str());
            r
        },
    }
}

/// The identifiers of the unanswered questions of the given priority band
/// (critical, high, or any other), in order.
pub open spec fn unanswered_in_band(
    questions: Seq<(u128, QuestionPriority)>,
    answered: Seq<u128>,
    band: int,
) -> Seq<u128>
    decreases questions.len(),
{
    if questions.len() == 0 {
        Seq::empty()
    } else {
        let q = questions.last();
        let b = match q.1 {
            QuestionPriority::Critical => 0int,
            QuestionPriority::High => 1int,
            _ => 2int,
        };
        unanswered_in_band(questions.drop_last(), answered, band) + if !answered.contains(q.0) && b
            == band {
            seq![q.0]
        } else {
            Seq::empty()
        }
    }
}

/// The questions left to explore: the unanswered ones, critical first, then
/// high, then the rest.
pub open spec fn exploration_order(questions: Seq<(u128, QuestionPriority)>, answered: Seq<u128>) -> Seq<
    u128,
> {
    unanswered_in_band(questions, answered, 0) + unanswered_in_band(questions, answered, 1)
        + unanswered_in_band(questions, answered, 2)
}

fn contains_id(v: &Vec<u128>, id: u128) -> (r: bool)
    ensures
        r == v@.contains(id),
{
    let n = v.len();
    for i in 0..n
        invariant
            n == v@.len(),
            forall|j: int| 0 <= j < i ==> v@[j] != id,
    {
        if v[i] == id {
            return true;
        }
    }
    false
}

fn band_of(p: QuestionPriority) -> (b: u8)
    ensures
        b as int == match p {
            QuestionPriority::Critical => 0int,
            QuestionPriority::High => 1int,
            _ => 2int,
        },
{
    match p {
        QuestionPriority::Critical => 0,
        QuestionPriority::High => 1,
        _ => 2,
    }
}

/// Lists the questions left to explore, given each question's identifier
/// and priority and the identifiers of the answered questions.
pub fn questions_to_explore(questions: &Vec<(u128, QuestionPriority)>, answered: &Vec<u128>) -> (r: Vec<
    u128,
>)
    ensures
        r@ == exploration_order(questions@, answered@),
{
    let mut out: Vec<u128> = Vec::new();
    let n = questions.len();
    let mut band: u8 = 0;
    let ghost done = Seq::<u128>::empty();
    while band < 3
        invariant
            n == questions@.len(),
            band <= 3,
            out@ == if band == 0 {
                Seq::<u128>::empty()
            } else if band == 1 {
                unanswered_in_band(questions@, answered@, 0)
            } else if band == 2 {
                unanswered_in_band(questions@, answered@, 0) + unanswered_in_band(questions@, answered@, 1)
            } else {
                exploration_order(questions@, answered@)
            },
        decreases 3 - band,
    {
        let ghost start = out@;
        for i in 0..n
            invariant
                n == questions@.len(),
                band < 3,
                out@ == start + unanswered_in_band(questions@.take(i as int), answered@, band as int),
        {
            proof {
                assert(questions@.take(i + 1).drop_last() =~= questions@.take(i as int));
            }
            let (id, p) = questions[i];
            if !contains_id(answered, id) && band_of(p) == band {
                out.push(id);
                proof {
                    assert(out@ =~= start + unanswered_in_band(questions@.take(i + 1), answered@, band as int));
                }
            }
        }
        proof {
            assert(questions@.take(n as int) =~= questions@);
            if band == 0 {
                assert(start + unanswered_in_band(questions@, answered@, 0) =~= unanswered_in_band(
                    questions@,
                    answered@,
                    0,
                ));
            }
        }
        band = band + 1;
    }
    out
}

/// An answer at the exploration menu.
#[derive(Debug, Clone, Copy, PartialEq, Eq, Structural)]
pub enum ExploreChoice {
    AddCustom,
    Review,
    Back,
    Question(usize),
    /// A number that names no listed question.
    InvalidChoice,
    /// Not a number.
    InvalidInput,
}

/// The number a text denotes, read as an unsigned decimal (one or more ASCII
/// digits after an optional `+`), when it lies between 1 and `max`.
pub open spec fn number_between(t: Seq<char>, max: int) -> Option<int> {
    let d = crate::planner::unsigned_digits(t);
    if d.len() > 0 && crate::planner::all_digits(d) && 1 <= crate::planner::digits_value(d) <= max {
        Some(crate::planner::digits_value(d) as int)
    } else {
        None
    }
}

pub(crate) fn read_number_up_to(t: &Vec<char>, max: usize) -> (r: Option<usize>)
    ensures
        match r {
            Some(v) => number_between(t@, max as int) == Some(v as int),
            None => number_between(t@, max as int) is None,
        },
{
    let start: usize = if t.len() > 0 && t[0] == '+' {
        1
    } else {
        0
    };
    let ghost d = crate::planner::unsigned_digits(t@);
    proof {
        assert(d =~= t@.subrange(start as int, t@.len() as int));
    }
    if start >= t.len() {
        return None;
    }
    let n = t.len();
    let mut value: usize = 0;
    let mut too_big = false;
    for i in start..n
        invariant
            n == t@.len(),
            start < n,
            d == t@.subrange(start as int, n as int),
            d == crate::planner::unsigned_digits(t@),
            forall|j: int| 0 <= j < i - start ==> '0' <= #[trigger] d[j] <= '9',
            !too_big ==> value == crate::planner::digits_value(d.take(i - start)) && value <= max,
            too_big ==> crate::planner::digits_value(d.take(i - start)) > max,
    {
        let c = t[i];
        if !('0' <= c && c <= '9') {
            proof {
                assert(d[i - start] == c);
                assert(!crate::planner::all_digits(d));
            }
            return None;
        }
        proof {
            assert(d.take(i - start + 1).drop_last() =~= d.take(i - start));
            assert(d.take(i - start + 1).last() == c);
        }
        let digit = (c as usize) - ('0' as usize);
        if !too_big {
            if digit > max || value > (max - digit) / 10 {
                too_big = true;
                proof {
                    if digit <= max {
                        assert(value * 10 + digit > max) by (nonlinear_arith)
                            requires
                                value > (max - digit) / 10,
                                digit <= max,
                        ;
                    }
                }
            } else {
                proof {
                    assert(value * 10 + digit <= max) by (nonlinear_arith)
                        requires
                            value <= (max - digit) / 10,
                            digit <= max,
                    ;
                }
                value = value * 10 + digit;
            }
        } else {
            proof {
                assert(crate::planner::digits_value(d.take(i - start)) * 10 + digit > max) by (nonlinear_arith)
                    requires
                        crate::planner::digits_value(d.take(i - start)) > max,
                ;
            }
        }
    }
    proof {
        assert(d.take(n - start) =~= d);
    }
    if too_big || value == 0 {
        None
    } else {
        Some(value)
    }
}

/// Reads an answer at the exploration menu with `count` questions listed:
/// `a`, `r` and `b` pick the options, a number from 1 to `count` picks that
/// question, another number is an invalid choice and anything else invalid
/// input (surrounding whitespace ignored).
pub fn explore_menu_choice(input: &str, count: usize) -> (r: ExploreChoice)
    ensures
        r == if trimmed(input@) == "a"@ {
            ExploreChoice::AddCustom
        } else if trimmed(input@) == "r"@ {
            ExploreChoice::Review
        } else if trimmed(input@) == "b"@ {
            ExploreChoice::Back
        } else {
            match crate::planner::list_pick_for(trimmed(input@), count as int) {
                crate::planner::ListPick::Entry(i) => ExploreChoice::Question((i + 1) as usize),
                crate::planner::ListPick::OutOfRange => ExploreChoice::InvalidChoice,
                crate::planner::ListPick::NotANumber => ExploreChoice::InvalidInput,
            }
        },
{
    let t = trim_chars(chars_of(input).as_slice());
    let ts = string_from_chars(t.as_slice());
    if crate::text::str_eq(ts.as_str(), "a") {
        ExploreChoice::AddCustom
    } else if crate::text::str_eq(ts.as_str(), "r") {
        ExploreChoice::Review
    } else if crate::text::str_eq(ts.as_str(), "b") {
        ExploreChoice::Back
    } else {
        match crate::planner::list_pick(input, count) {
            crate::planner::ListPick::Entry(i) => ExploreChoice::Question(i + 1),
            crate::planner::ListPick::OutOfRange => ExploreChoice::InvalidChoice,
            crate::planner::ListPick::NotANumber => ExploreChoice::InvalidInput,
        }
    }
}

/// An entry of the planning-session main menu.
#[derive(Debug, Clone, Copy, PartialEq, Eq, Structural)]
pub enum SessionMenuChoice {
    NewSession,
    LoadSession,
    ContinueSession,
    BrowseQuestions,
    SaveSession,
    Overview,
    PendingRequests,
    Quit,
    Invalid,
}

/// The session-menu entry a trimmed answer picks: "1" to "8" in menu order,
/// anything else is invalid.
pub open spec fn session_menu_for(t: Seq<char>) -> SessionMenuChoice {
    if t == "1"@ {
        SessionMenuChoice::NewSession
    } else if t == "2"@ {
        SessionMenuChoice::LoadSession
    } else if t == "3"@ {
        SessionMenuChoice::ContinueSession
    } else if t == "4"@ {
        SessionMenuChoice::BrowseQuestions
    } else if t == "5"@ {
        SessionMenuChoice::SaveSession
    } else if t == "6"@ {
        SessionMenuChoice::Overview
    } else if t == "7"@ {
        SessionMenuChoice::PendingRequests
    } else if t == "8"@ {
        SessionMenuChoice::Quit
    } else {
        SessionMenuChoice::Invalid
    }
}

/// The session-menu entry an answer picks (surrounding whitespace ignored).
pub fn session_menu_choice(input: &str) -> (c: SessionMenuChoice)
    ensures
        c == session_menu_for(trimmed(input@)),
{
    let t = trim_chars(chars_of(input).as_slice());
    let ts = string_from_chars(t.as_slice());
    let s = ts.as_str();
    if crate::text::str_eq(s, "1") {
        SessionMenuChoice::NewSession
    } else if crate::text::str_eq(s, "2") {
        SessionMenuChoice::LoadSession
    } else if crate::text::str_eq(s, "3") {
        SessionMenuChoice::ContinueSession
    } else if crate::text::str_eq(s, "4") {
        SessionMenuChoice::BrowseQuestions
    } else if crate::text::str_eq(s, "5") {
        SessionMenuChoice::SaveSession
    } else if crate::text::str_eq(s, "6") {
        SessionMenuChoice::Overview
    } else if crate::text::str_eq(s, "7") {
        SessionMenuChoice::PendingRequests
    } else if crate::text::str_eq(s, "8") {
        SessionMenuChoice::Quit
    } else {
        SessionMenuChoice::Invalid
    }
}

/// An answer in the pending-requests menu.
#[derive(Debug, Clone, Copy, PartialEq, Eq, Structural)]
pub enum PendingMenuChoice {
    RetryAll,
    RetryOne,
    RemoveOne,
    Back,
}

/// The pending-requests entry an answer picks: "1", "2" and "3" retry all,
/// retry one and remove one; anything else goes back (surrounding whitespace
/// ignored).
pub fn pending_menu_choice(input: &str) -> (c: PendingMenuChoice)
    ensures
        c == if trimmed(input@) == "1"@ {
            PendingMenuChoice::RetryAll
        } else if trimmed(input@) == "2"@ {
            PendingMenuChoice::RetryOne
        } else if trimmed(input@) == "3"@ {
            PendingMenuChoice::RemoveOne
        } else {
            PendingMenuChoice::Back
        },
{
    let t = trim_chars(chars_of(input).as_slice());
    let ts = string_from_chars(t.as_slice());
    let s = ts.as_str();
    if crate::text::str_eq(s, "1") {
        PendingMenuChoice::RetryAll
    } else if crate::text::str_eq(s, "2") {
        PendingMenuChoice::RetryOne
    } else if crate::text::str_eq(s, "3") {
        PendingMenuChoice::RemoveOne
    } else {
        PendingMenuChoice::Back
    }
}

/// The counts of a round of retries: successes, requests still failing,
/// and permanent failures (a retry that could not be made counts as one).
#[derive(Debug, Clone, Copy, PartialEq, Eq, Structural)]
pub struct RetryTally {
    pub succeeded: usize,
    pub still_failing: usize,
    pub permanent: usize,
}

/// The tally of a round of retries: each result counted under its kind,
/// `None` standing for a retry that could not be made.
pub open spec fn tally_of(results: Seq<Option<RetryResult>>) -> (nat, nat, nat)
    decreases results.len(),
{
    if results.len() == 0 {
        (0, 0, 0)
    } else {
        let t = tally_of(results.drop_last());
        match results.last() {
            Some(RetryResult::Success) => ((t.0 + 1) as nat, t.1, t.2),
            Some(RetryResult::StillFailing(_)) => (t.0, (t.1 + 1) as nat, t.2),
            _ => (t.0, t.1, (t.2 + 1) as nat),
        }
    }
}

proof fn lemma_tally_total(results: Seq<Option<RetryResult>>)
    ensures
        tally_of(results).0 + tally_of(results).1 + tally_of(results).2 == results.len(),
    decreases results.len(),
{
    if results.len() > 0 {
        lemma_tally_total(results.drop_last());
    }
}

/// Counts the results of a round of retries.
pub fn tally_retries(results: &Vec<Option<RetryResult>>) -> (t: RetryTally)
    ensures
        (t.succeeded as nat, t.still_failing as nat, t.permanent as nat) == tally_of(results@),
        t.succeeded + t.still_failing + t.permanent == results@.len(),
{
    let mut t = RetryTally { succeeded: 0, still_failing: 0, permanent: 0 };
    let n = results.len();
    for i in 0..n
        invariant
            n == results@.len(),
            (t.succeeded as nat, t.still_failing as nat, t.permanent as nat) == tally_of(results@.take(i as int)),
            t.succeeded + t.still_failing + t.permanent == i,
    {
        proof {
            assert(results@.take(i + 1).drop_last() =~= results@.take(i as int));
            assert(results@.take(i + 1).last() == results@[i as int]);
        }
        match &results[i] {
            Some(RetryResult::Success) => t.succeeded = t.succeeded + 1,
            Some(RetryResult::StillFailing(_)) => t.still_failing = t.still_failing + 1,
            _ => t.permanent = t.permanent + 1,
        }
    }
    proof {
        assert(results@.take(n as int) =~= results@);
        lemma_tally_total(results@);
    }
    t
}

} // verus!
