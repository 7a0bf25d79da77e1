use eplayer::prompt::{ai_response, transcription_prompt, AiResponse, AssistantRole};

#[test]
fn every_role_has_its_instruction() {
    let table = [
        (AssistantRole::WordDictionary, "Provides parts of speech, Chinese translation and clear definition suitable for English learners less than 20 words. Output format: [part of speech],[Chinese translation],[definition]"),
        (AssistantRole::WordSymbols, "Provide English and American pronunciation symbols. Output format: [English symbol],[American symbol]"),
        (AssistantRole::WordMore, "Provide one synonyms and additional notes about usage,including whether the word is formal, or used in specific contexts, less than 20 words. Output format: [synonym],[notes]"),
        (AssistantRole::WordEtymology, "Provide etymology or origin, less than 20 words. Output format: [etymology or origin]"),
        (AssistantRole::WordExample, "Provide one example sentences of less than 10 words. Output format: [example sentence]"),
        (AssistantRole::WordCustom, "Provide results upon request briefly, less than 20 words. Choose the language of your reply for English learners."),
        (AssistantRole::SentenceTranslation, "Provide a clear, concise Chinese translation of the text, less than 20 words. Output format: [translation]"),
        (AssistantRole::SentenceStructure, "Provide a breakdown of the grammatical structure, identifying key parts like the subject, verb, and object. Output format: [structure]"),
        (AssistantRole::SentenceCopy, "Provide one similar expressions, less than 20 words. Output format: [similar expressions]"),
        (AssistantRole::SentenceExample, "Provide one example sentences or phrases for the content, in less than 15 words. Output format: [example sentence]"),
        (AssistantRole::SentenceTransform, "Provide a transformation of the sentence, like formal, informal, or suitable for specific situations,less than 30 words. Output format: [transformation]"),
        (AssistantRole::SentenceCustom, "Provide results upon request briefly, less than 20 words. Choose the language of your reply for English learners."),
    ];
    for (role, instruction) in table {
        assert_eq!(role.get_system_prompt(), instruction, "{:?}", role);
    }
}

#[test]
fn custom_roles_share_one_instruction() {
    assert_eq!(
        AssistantRole::WordCustom.get_system_prompt(),
        AssistantRole::SentenceCustom.get_system_prompt()
    );
}

#[test]
fn transcriber_is_addressed_in_the_language_of_the_audio() {
    assert_eq!(
        transcription_prompt("en"),
        "Please segment based on complete sentences and natural speech pauses. Avoid breaking mid-sentence."
    );
    assert_eq!(transcription_prompt("zh"), "请严格按照完整句子和自然停顿分段。避免在句子中间断开。");
    assert_eq!(
        transcription_prompt("ja"),
        "文章の完全な意味と自な休止点に基づいて分割してください。文の途中で区切らないでください。"
    );
}

#[test]
fn other_languages_get_the_general_hint() {
    let general = "Please segment based on complete sentences and natural speech pauses.";
    for language in ["fr", "", "EN", "en-GB", "zh-TW", "japanese"] {
        assert_eq!(transcription_prompt(language), general, "{}", language);
    }
}

#[test]
fn token_counts_are_reported_as_they_are() {
    assert_eq!(
        ai_response("fine".to_string(), 12, 345),
        AiResponse { content: "fine".to_string(), input_tokens: 12, output_tokens: 345 }
    );
    assert_eq!(
        ai_response(String::new(), 0, u32::MAX as usize),
        AiResponse { content: String::new(), input_tokens: 0, output_tokens: u32::MAX }
    );
}

#[test]
fn token_counts_beyond_32_bits_keep_their_low_bits() {
    if usize::BITS > 32 {
        let big = (1u64 << 32) as usize;
        let response = ai_response("x".to_string(), big + 5, big * 3 - 1);
        assert_eq!(response.input_tokens, 5);
        assert_eq!(response.output_tokens, u32::MAX);
        assert_eq!(ai_response("x".to_string(), usize::MAX, big).input_tokens, u32::MAX);
        assert_eq!(ai_response("x".to_string(), usize::MAX, big).output_tokens, 0);
    }
}
