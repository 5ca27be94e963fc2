use std::path::PathBuf;

use ganbare_backend::manage::{
    assign_question_id, check_quiz_form, keep_sanitized, quiz_question_record, without_extra,
    Fieldset, ManageError, NewQuestion, NewWordFromStrings, QUIZ_SKILL_LEVEL,
};
use ganbare_backend::models::{NewAnswer, UpdateAnswer, UpdateWord};

fn variant() -> (PathBuf, Option<String>, mime::Mime) {
    (PathBuf::from("/tmp/q.mp3"), Some("q.mp3".to_string()), mime::APPLICATION_OCTET_STREAM)
}

fn fieldset(n_variants: usize) -> Fieldset {
    Fieldset {
        q_variants: (0..n_variants).map(|_| variant()).collect(),
        answer_audio: None,
        answer_text: "answer".to_string(),
    }
}

#[test]
fn quiz_form_without_answers_is_refused() {
    assert_eq!(check_quiz_form(&vec![]), Err(ManageError::FormParseError));
}

#[test]
fn quiz_form_with_answer_lacking_variants_is_refused() {
    assert_eq!(check_quiz_form(&vec![fieldset(1), fieldset(0)]), Err(ManageError::FormParseError));
}

#[test]
fn complete_quiz_form_passes() {
    assert_eq!(check_quiz_form(&vec![fieldset(1), fieldset(3)]), Ok(()));
}

#[test]
fn quiz_question_record_copies_texts() {
    let q = NewQuestion {
        q_name: "name".to_string(),
        q_explanation: "expl".to_string(),
        question_text: "text".to_string(),
        skill_nugget: "nugget".to_string(),
    };
    let r = quiz_question_record(&q, 7);
    assert_eq!(r.skill_id, 7);
    assert_eq!(r.q_name, "name");
    assert_eq!(r.q_explanation, "expl");
    assert_eq!(r.question_text, "text");
    assert_eq!(r.skill_level, 2);
    assert_eq!(QUIZ_SKILL_LEVEL, 2);
}

#[test]
fn answer_record_from_fieldset() {
    let f = fieldset(1);
    let a = f.answer_record(3, Some(4), 5);
    assert_eq!(a.question_id, 3);
    assert_eq!(a.a_audio_bundle, Some(4));
    assert_eq!(a.q_audio_bundle, 5);
    assert_eq!(a.answer_text, "answer");
}

#[test]
fn word_record_from_form() {
    let w = NewWordFromStrings {
        word: "かさ".to_string(),
        explanation: "umbrella".to_string(),
        nugget: "kasa".to_string(),
        narrator: "N",
        files: vec![variant()],
    };
    let r = w.word_record(11, 12);
    assert_eq!(r.word, "かさ");
    assert_eq!(r.explanation, "umbrella");
    assert_eq!(r.audio_bundle, 11);
    assert_eq!(r.skill_nugget, 12);
}

#[test]
fn loaded_question_drops_third_part() {
    assert_eq!(without_extra(Some((1, "b", 3.5))), Some((1, "b")));
    assert_eq!(without_extra::<i32, i32, i32>(None), None);
}

#[test]
fn sanitize_failures_are_dropped() {
    assert_eq!(keep_sanitized::<()>(Some(Ok("x".to_string()))), Some("x".to_string()));
    assert_eq!(keep_sanitized(Some(Err::<String, &str>("no"))), None);
    assert_eq!(keep_sanitized::<()>(None), None);
}

#[test]
fn update_word_takes_sanitized_explanation() {
    let mut u = UpdateWord {
        word: Some("w".to_string()),
        explanation: Some("raw".to_string()),
        audio_bundle: Some(1),
        skill_nugget: None,
        published: Some(true),
    };
    u.set_sanitized_explanation::<()>(Some(Ok("clean".to_string())));
    assert_eq!(u.explanation, Some("clean".to_string()));
    assert_eq!(u.word, Some("w".to_string()));
    assert_eq!(u.audio_bundle, Some(1));
    assert_eq!(u.published, Some(true));
    u.set_sanitized_explanation(Some(Err::<String, i32>(1)));
    assert_eq!(u.explanation, None);
}

#[test]
fn update_answer_takes_sanitized_text() {
    let mut u = UpdateAnswer {
        question_id: Some(2),
        a_audio_bundle: Some(None),
        q_audio_bundle: Some(3),
        answer_text: Some("raw".to_string()),
    };
    u.set_sanitized_answer_text::<()>(Some(Ok("clean".to_string())));
    assert_eq!(u.answer_text, Some("clean".to_string()));
    assert_eq!(u.question_id, Some(2));
    assert_eq!(u.a_audio_bundle, Some(None));
    assert_eq!(u.q_audio_bundle, Some(3));
}

#[test]
fn answers_are_attached_to_question() {
    let mut answers = vec![
        NewAnswer { question_id: 0, a_audio_bundle: None, q_audio_bundle: 1, answer_text: "a" },
        NewAnswer { question_id: 9, a_audio_bundle: Some(4), q_audio_bundle: 2, answer_text: "b" },
    ];
    assign_question_id(&mut answers, 42);
    assert_eq!(answers.len(), 2);
    assert!(answers.iter().all(|a| a.question_id == 42));
    assert_eq!(answers[0].q_audio_bundle, 1);
    assert_eq!(answers[1].a_audio_bundle, Some(4));
    assert_eq!(answers[1].answer_text, "b");
}
