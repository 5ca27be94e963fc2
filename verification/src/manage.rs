//! Content management: the forms that quizzes, words and audio are created
//! from, the check a quiz form must pass, and the records that are stored
//! for them.
use vstd::prelude::*;
use std::path::PathBuf;
use crate::models::{NewAnswer, NewQuizQuestion, NewWord, UpdateAnswer, UpdateWord};

verus! {

/// A file system path.
#[verifier::external_type_specification]
#[verifier::external_body]
pub struct ExPathBuf(std::path::PathBuf);

/// A media type of the `mime` crate.
#[verifier::external_type_specification]
#[verifier::external_body]
pub struct ExMime(mime::Mime);

/// The errors of content management.
#[derive(Debug, Clone, Copy, PartialEq, Eq, Structural)]
pub enum ManageError {
    /// The submitted form lacks something that it must have.
    FormParseError,
}

/// One answer of a quiz form: the audio variants of the question, the
/// optional audio of the answer, and the answer's text. An audio file is its
/// path, the name it was uploaded under if known, and its media type.
#[derive(Debug)]
pub struct Fieldset {
    pub q_variants: Vec<(PathBuf, Option<String>, mime::Mime)>,
    pub answer_audio: Option<(PathBuf, Option<String>, mime::Mime)>,
    pub answer_text: String,
}

/// The texts of a new quiz question, and the skill it trains.
pub struct NewQuestion {
    pub q_name: String,
    pub q_explanation: String,
    pub question_text: String,
    pub skill_nugget: String,
}

/// A new word with its explanation, skill, narrator and audio files.
#[derive(Debug)]
pub struct NewWordFromStrings<'a> {
    pub word: String,
    pub explanation: String,
    pub nugget: String,
    pub narrator: &'a str,
    pub files: Vec<(PathBuf, Option<String>, mime::Mime)>,
}

/// New audio files for a word, read by a narrator.
#[derive(Debug)]
pub struct NewAudio<'a> {
    pub word: String,
    pub narrator: &'a str,
    pub files: Vec<(PathBuf, Option<String>, mime::Mime)>,
}

/// Whether a quiz form can be stored: it has an answer, and every answer has
/// at least one audio variant of the question.
pub open spec fn quiz_form_complete(answers: Seq<Fieldset>) -> bool {
    &&& answers.len() > 0
    &&& forall|i: int| 0 <= i < answers.len() ==> #[trigger] answers[i].q_variants@.len() > 0
}

/// A quiz form is refused when it has no answer, or when any one of its
/// answers, the first included, has no audio variant of the question; it is
/// accepted when it has answers and each of them has a variant.
pub proof fn lemma_quiz_form_refusal(answers: Seq<Fieldset>)
    ensures
        answers.len() == 0 ==> !quiz_form_complete(answers),
        forall|i: int|
            0 <= i < answers.len() && #[trigger] answers[i].q_variants@.len() == 0
                ==> !quiz_form_complete(answers),
        (answers.len() > 0 && forall|i: int|
            0 <= i < answers.len() ==> answers[i].q_variants@.len() > 0) ==> quiz_form_complete(
            answers,
        ),
{
}

/// Checks a quiz form before anything is stored.
pub fn check_quiz_form(answers: &Vec<Fieldset>) -> (r: Result<(), ManageError>)
    ensures
        r is Ok <==> quiz_form_complete(answers@),
        r is Err ==> r == Err::<(), ManageError>(ManageError::FormParseError),
        answers@.len() == 0 ==> r is Err,
        forall|i: int| 0 <= i < answers@.len() && answers@[i].q_variants@.len() == 0 ==> r is Err,
        (answers@.len() > 0 && forall|i: int| 0 <= i < answers@.len() ==> answers@[i].q_variants@.len() > 0) ==> r is Ok,
{
    if answers.len() == 0 {
        return Err(ManageError::FormParseError);
    }
    let mut i: usize = 0;
    while i < answers.len()
        invariant
            i <= answers@.len(),
            forall|k: int| 0 <= k < i ==> #[trigger] answers@[k].q_variants@.len() > 0,
        decreases answers@.len() - i,
    {
        if answers[i].q_variants.len() == 0 {
            return Err(ManageError::FormParseError);
        }
        i += 1;
    }
    Ok(())
}

/// The skill level a new quiz question is stored with.
pub const QUIZ_SKILL_LEVEL: i32 = 2;

/// The row stored for a new quiz question that trains the skill `skill_id`.
pub fn quiz_question_record<'a>(new_q: &'a NewQuestion, skill_id: i32) -> (q: NewQuizQuestion<'a>)
    ensures
        q.skill_id == skill_id,
        q.q_name@ == new_q.q_name@,
        q.q_explanation@ == new_q.q_explanation@,
        q.question_text@ == new_q.question_text@,
        q.skill_level == QUIZ_SKILL_LEVEL,
{
    NewQuizQuestion {
        skill_id,
        q_name: new_q.q_name.as_str(),
        q_explanation: new_q.q_explanation.as_str(),
        question_text: new_q.question_text.as_str(),
        skill_level: QUIZ_SKILL_LEVEL,
    }
}

impl Fieldset {
    /// The row stored for this answer of the question `question_id`, with
    /// the audio bundles that its answer audio and question variants were
    /// saved in.
    pub fn answer_record<'a>(
        &'a self,
        question_id: i32,
        a_audio_bundle: Option<i32>,
        q_audio_bundle: i32,
    ) -> (a: NewAnswer<'a>)
        ensures
            a.question_id == question_id,
            a.a_audio_bundle == a_audio_bundle,
            a.q_audio_bundle == q_audio_bundle,
            a.answer_text@ == self.answer_text@,
    {
        NewAnswer {
            question_id,
            a_audio_bundle,
            q_audio_bundle,
            answer_text: self.answer_text.as_str(),
        }
    }
}

impl<'a> NewWordFromStrings<'a> {
    /// The row stored for this word, with the audio bundle its files were
    /// saved in and the skill it trains.
    pub fn word_record<'b>(&'b self, audio_bundle: i32, skill_nugget: i32) -> (w: NewWord<'b>)
        ensures
            w.word@ == self.word@,
            w.explanation@ == self.explanation@,
            w.audio_bundle == audio_bundle,
            w.skill_nugget == skill_nugget,
    {
        NewWord {
            word: self.word.as_str(),
            explanation: self.explanation.as_str(),
            audio_bundle,
            skill_nugget,
        }
    }
}

/// A loaded question or exercise without the third part of what was
/// loaded.
pub fn without_extra<A, B, C>(loaded: Option<(A, B, C)>) -> (r: Option<(A, B)>)
    ensures
        match loaded {
            Some((a, b, _)) => r == Some((a, b)),
            None => r is None,
        },
{
    match loaded {
        Some((a, b, _)) => Some((a, b)),
        None => None,
    }
}

/// The text that a sanitized field keeps: the sanitized text where there
/// was a text and sanitizing succeeded, else nothing.
pub open spec fn sanitized_field<E>(outcome: Option<Result<String, E>>) -> Option<Seq<char>> {
    match outcome {
        Some(Ok(s)) => Some(s@),
        _ => None,
    }
}

/// Every sanitized text is kept as it is, the empty text too; only a missing
/// text or a failure leaves nothing.
pub proof fn lemma_sanitized_text_is_kept<E>(s: String, e: E)
    ensures
        sanitized_field(Some(Ok::<String, E>(s))) == Some(s@),
        sanitized_field(Some(Err::<String, E>(e))) is None,
        sanitized_field(None::<Result<String, E>>) is None,
{
}

/// Keeps the sanitized text, dropping a failure.
pub fn keep_sanitized<E>(outcome: Option<Result<String, E>>) -> (r: Option<String>)
    ensures
        match r {
            Some(s) => sanitized_field(outcome) == Some(s@),
            None => sanitized_field(outcome) is None,
        },
        outcome matches Some(Ok(s)) ==> r == Some(s),
        !(outcome is Some && outcome->0 is Ok) ==> r is None,
{
    match outcome {
        Some(Ok(s)) => Some(s),
        _ => None,
    }
}

impl UpdateWord {
    /// Puts the outcome of sanitizing the explanation in its place.
    pub fn set_sanitized_explanation<E>(&mut self, outcome: Option<Result<String, E>>)
        ensures
            match final(self).explanation {
                Some(s) => sanitized_field(outcome) == Some(s@),
                None => sanitized_field(outcome) is None,
            },
            outcome matches Some(Ok(s)) ==> final(self).explanation == Some(s),
            !(outcome is Some && outcome->0 is Ok) ==> final(self).explanation is None,
            final(self).word == old(self).word,
            final(self).audio_bundle == old(self).audio_bundle,
            final(self).skill_nugget == old(self).skill_nugget,
            final(self).published == old(self).published,
    {
        self.explanation = keep_sanitized(outcome);
    }
}

impl UpdateAnswer {
    /// Puts the outcome of sanitizing the answer text in its place.
    pub fn set_sanitized_answer_text<E>(&mut self, outcome: Option<Result<String, E>>)
        ensures
            match final(self).answer_text {
                Some(s) => sanitized_field(outcome) == Some(s@),
                None => sanitized_field(outcome) is None,
            },
            outcome matches Some(Ok(s)) ==> final(self).answer_text == Some(s),
            !(outcome is Some && outcome->0 is Ok) ==> final(self).answer_text is None,
            final(self).question_id == old(self).question_id,
            final(self).a_audio_bundle == old(self).a_audio_bundle,
            final(self).q_audio_bundle == old(self).q_audio_bundle,
    {
        self.answer_text = keep_sanitized(outcome);
    }
}

/// Attaches every answer to the question `question_id`, leaving the rest of
/// each answer as it is.
pub fn assign_question_id<'a>(answers: &mut Vec<NewAnswer<'a>>, question_id: i32)
    ensures
        final(answers)@.len() == old(answers)@.len(),
        forall|i: int|
            0 <= i < final(answers)@.len() ==> {
                &&& (#[trigger] final(answers)@[i]).question_id == question_id
                &&& final(answers)@[i].a_audio_bundle == old(answers)@[i].a_audio_bundle
                &&& final(answers)@[i].q_audio_bundle == old(answers)@[i].q_audio_bundle
                &&& final(answers)@[i].answer_text == old(answers)@[i].answer_text
            },
{
    let ghost before = answers@;
    let n: usize = answers.len();
    let mut i: usize = 0;
    while i < n
        invariant
            n == before.len(),
            answers@.len() == n,
            i <= n,
            forall|k: int|
                0 <= k < n ==> {
                    &&& (#[trigger] answers@[k]).question_id == (if k < i {
                        question_id
                    } else {
                        before[k].question_id
                    })
                    &&& answers@[k].a_audio_bundle == before[k].a_audio_bundle
                    &&& answers@[k].q_audio_bundle == before[k].q_audio_bundle
                    &&& answers@[k].answer_text == before[k].answer_text
                },
        decreases n - i,
    {
        let updated = NewAnswer {
            question_id,
            a_audio_bundle: answers[i].a_audio_bundle,
            q_audio_bundle: answers[i].q_audio_bundle,
            answer_text: answers[i].answer_text,
        };
        answers.set(i, updated);
        i += 1;
    }
}

} // verus!
