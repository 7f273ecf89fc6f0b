use triviabot::question::Question;

fn shuffled_question(options: Vec<&str>, answer: &str) -> Question {
    Question::from_shuffled(
        String::from("What?"),
        String::from(answer),
        options.into_iter().map(String::from).collect(),
        String::from("General"),
        String::from("easy"),
        false,
    )
}

#[test]
fn letter_names_the_answer_position() {
    let q = shuffled_question(vec!["w", "x", "y", "z"], "y");
    assert_eq!(q.answer_letter, "C");
    assert_eq!(q.answer_prompt, "\nA. w\nB. x\nC. y\nD. z\n");
    assert_eq!(q.options, vec!["w", "x", "y", "z"]);
}

#[test]
fn letter_for_each_position() {
    assert_eq!(shuffled_question(vec!["k", "l", "m", "n"], "k").answer_letter, "A");
    assert_eq!(shuffled_question(vec!["k", "l", "m", "n"], "l").answer_letter, "B");
    assert_eq!(shuffled_question(vec!["k", "l", "m", "n"], "m").answer_letter, "C");
    assert_eq!(shuffled_question(vec!["k", "l", "m", "n"], "n").answer_letter, "D");
}

#[test]
fn duplicate_answer_takes_last_position() {
    let q = shuffled_question(vec!["y", "x", "y", "z"], "y");
    assert_eq!(q.answer_letter, "C");
}

#[test]
fn position_past_the_fourth_falls_back_to_a() {
    let q = shuffled_question(vec!["u", "v", "w", "x", "y"], "y");
    assert_eq!(q.answer_letter, "A");
}

#[test]
fn announce_shows_prompt_and_options_never_the_letter() {
    let q = shuffled_question(vec!["w", "x", "y", "z"], "y");
    assert_eq!(
        q.announce(),
        "```Question: What?\n\nA. w\nB. x\nC. y\nD. z\n```"
    );
}

#[test]
fn describe_shows_the_answer_for_the_operator() {
    let q = shuffled_question(vec!["w", "x", "y", "z"], "y");
    assert_eq!(
        q.describe(),
        "\tCat: General,\n\tDifficulty: easy,\n\tQuestion: What?,\n\tAnswer: y\n\n"
    );
}

#[test]
fn construction_keeps_the_answer_reachable() {
    let q = Question::new(
        String::from("Capital of France?"),
        String::from("Paris"),
        vec![
            String::from("London"),
            String::from("Berlin"),
            String::from("Madrid"),
        ],
        String::from("Geography"),
        String::from("easy"),
        false,
    )
    .expect("plain texts must construct");
    assert_eq!(q.prompt, "Capital of France?");
    assert_eq!(q.answer, "Paris");
    assert_eq!(q.options.len(), 4);
    let mut sorted = q.options.clone();
    sorted.sort();
    assert_eq!(sorted, vec!["Berlin", "London", "Madrid", "Paris"]);
    let idx = match q.answer_letter.as_str() {
        "A" => 0,
        "B" => 1,
        "C" => 2,
        "D" => 3,
        other => panic!("unexpected letter {}", other),
    };
    assert_eq!(q.options[idx], "Paris");
}

#[test]
fn construction_decodes_html_entities() {
    let q = Question::new(
        String::from("Fish &amp; Chips?"),
        String::from("&quot;Yes&quot;"),
        vec![
            String::from("&lt;no&gt;"),
            String::from("b"),
            String::from("c"),
        ],
        String::from("Food"),
        String::from("easy"),
        false,
    )
    .expect("decodable texts must construct");
    assert_eq!(q.prompt, "Fish & Chips?");
    assert_eq!(q.answer, "\"Yes\"");
    assert!(q.options.contains(&String::from("<no>")));
}

#[test]
fn malformed_entity_yields_nothing() {
    let q = Question::new(
        String::from("Broken &nosuchentity; prompt"),
        String::from("a"),
        vec![String::from("b"), String::from("c"), String::from("d")],
        String::from("x"),
        String::from("y"),
        false,
    );
    assert!(q.is_none());
}

#[test]
fn shuffle_is_roughly_uniform_over_the_letters() {
    // Over many constructions of the same four answers, the correct answer
    // must land on each letter about a quarter of the time.
    let trials = 4000;
    let mut counts = [0u32; 4];
    for _ in 0..trials {
        let q = Question::new(
            String::from("p"),
            String::from("right"),
            vec![
                String::from("wrong1"),
                String::from("wrong2"),
                String::from("wrong3"),
            ],
            String::from("c"),
            String::from("d"),
            false,
        )
        .expect("plain texts must construct");
        let idx = match q.answer_letter.as_str() {
            "A" => 0,
            "B" => 1,
            "C" => 2,
            "D" => 3,
            other => panic!("unexpected letter {}", other),
        };
        counts[idx] += 1;
    }
    // Expected 1000 per slot; allow a generous band (more than seven standard
    // deviations) so a fair shuffle virtually never fails the test while a
    // fixed or heavily biased slot always does.
    for (i, &c) in counts.iter().enumerate() {
        assert!(
            c >= 800 && c <= 1200,
            "letter slot {} hit {} times out of {}",
            i,
            c,
            trials
        );
    }
}
