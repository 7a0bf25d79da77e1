//! What the language assistant is told to do, and what it answered.

use vstd::prelude::*;
use crate::text::same_text;

verus! {

/// The tasks that the assistant can be given for a word or a sentence.
#[derive(Clone, Copy, Debug, PartialEq, Eq, Structural)]
pub enum AssistantRole {
    WordDictionary,
    WordMore,
    WordEtymology,
    WordExample,
    WordCustom,
    WordSymbols,
    SentenceTranslation,
    SentenceStructure,
    SentenceCopy,
    SentenceExample,
    SentenceTransform,
    SentenceCustom,
}

impl AssistantRole {
    /// The instruction that goes with a role.
    pub open spec fn instruction(self) -> Seq<char> {
        match self {
            AssistantRole::WordDictionary => "Provides parts of speech, Chinese translation and clear definition suitable for English learners less than 20 words. Output format: [part of speech],[Chinese translation],[definition]"@,
            AssistantRole::WordSymbols => "Provide English and American pronunciation symbols. Output format: [English symbol],[American symbol]"@,
            AssistantRole::WordMore => "Provide one synonyms and additional notes about usage,including whether the word is formal, or used in specific contexts, less than 20 words. Output format: [synonym],[notes]"@,
            AssistantRole::WordEtymology => "Provide etymology or origin, less than 20 words. Output format: [etymology or origin]"@,
            AssistantRole::WordExample => "Provide one example sentences of less than 10 words. Output format: [example sentence]"@,
            AssistantRole::WordCustom => "Provide results upon request briefly, less than 20 words. Choose the language of your reply for English learners."@,
            AssistantRole::SentenceTranslation => "Provide a clear, concise Chinese translation of the text, less than 20 words. Output format: [translation]"@,
            AssistantRole::SentenceStructure => "Provide a breakdown of the grammatical structure, identifying key parts like the subject, verb, and object. Output format: [structure]"@,
            AssistantRole::SentenceCopy => "Provide one similar expressions, less than 20 words. Output format: [similar expressions]"@,
            AssistantRole::SentenceExample => "Provide one example sentences or phrases for the content, in less than 15 words. Output format: [example sentence]"@,
            AssistantRole::SentenceTransform => "Provide a transformation of the sentence, like formal, informal, or suitable for specific situations,less than 30 words. Output format: [transformation]"@,
            AssistantRole::SentenceCustom => "Provide results upon request briefly, less than 20 words. Choose the language of your reply for English learners."@,
        }
    }

    /// The instruction that is sent to the assistant along with the user's text.
    pub fn get_system_prompt(&self) -> (prompt: String)
        ensures
            prompt@ == self.instruction(),
    {
        match self {
            AssistantRole::WordDictionary => "Provides parts of speech, Chinese translation and clear definition suitable for English learners less than 20 words. Output format: [part of speech],[Chinese translation],[definition]".to_owned(),
            AssistantRole::WordSymbols => "Provide English and American pronunciation symbols. Output format: [English symbol],[American symbol]".to_owned(),
            AssistantRole::WordMore => "Provide one synonyms and additional notes about usage,including whether the word is formal, or used in specific contexts, less than 20 words. Output format: [synonym],[notes]".to_owned(),
            AssistantRole::WordEtymology => "Provide etymology or origin, less than 20 words. Output format: [etymology or origin]".to_owned(),
            AssistantRole::WordExample => "Provide one example sentences of less than 10 words. Output format: [example sentence]".to_owned(),
            AssistantRole::WordCustom => "Provide results upon request briefly, less than 20 words. Choose the language of your reply for English learners.".to_owned(),
            AssistantRole::SentenceTranslation => "Provide a clear, concise Chinese translation of the text, less than 20 words. Output format: [translation]".to_owned(),
            AssistantRole::SentenceStructure => "Provide a breakdown of the grammatical structure, identifying key parts like the subject, verb, and object. Output format: [structure]".to_owned(),
            AssistantRole::SentenceCopy => "Provide one similar expressions, less than 20 words. Output format: [similar expressions]".to_owned(),
            AssistantRole::SentenceExample => "Provide one example sentences or phrases for the content, in less than 15 words. Output format: [example sentence]".to_owned(),
            AssistantRole::SentenceTransform => "Provide a transformation of the sentence, like formal, informal, or suitable for specific situations,less than 30 words. Output format: [transformation]".to_owned(),
            AssistantRole::SentenceCustom => "Provide results upon request briefly, less than 20 words. Choose the language of your reply for English learners.".to_owned(),
        }
    }
}

/// What the assistant answered, and what the answer cost.
#[derive(Clone, Debug, PartialEq, Eq)]
pub struct AiResponse {
    pub content: String,
    pub input_tokens: u32,
    pub output_tokens: u32,
}

/// The number that a count of tokens is reported as: the count itself while
/// it fits into 32 bits, and its lowest 32 bits beyond that.
pub open spec fn reported(tokens: usize) -> int {
    tokens as int % 0x1_0000_0000
}

/// Puts an answer of the assistant into the form in which it is reported.
pub fn ai_response(content: String, input_tokens: usize, output_tokens: usize) -> (response:
    AiResponse)
    ensures
        response.content@ == content@,
        response.input_tokens == reported(input_tokens),
        response.output_tokens == reported(output_tokens),
{
    AiResponse {
        content,
        input_tokens: low_bits(input_tokens),
        output_tokens: low_bits(output_tokens),
    }
}

fn low_bits(tokens: usize) -> (low: u32)
    ensures
        low == reported(tokens),
{
    let wide = tokens as u64;
    assert(wide as u32 == wide % 0x1_0000_0000) by (bit_vector);
    #[verifier::truncate]
    (wide as u32)
}

/// The hint for the transcriber in a language it is given for.
pub open spec fn hint_for(language: Seq<char>) -> Seq<char> {
    if language == "en"@ {
        "Please segment based on complete sentences and natural speech pauses. Avoid breaking mid-sentence."@
    } else if language == "zh"@ {
        "请严格按照完整句子和自然停顿分段。避免在句子中间断开。"@
    } else if language == "ja"@ {
        "文章の完全な意味と自な休止点に基づいて分割してください。文の途中で区切らないでください。"@
    } else {
        "Please segment based on complete sentences and natural speech pauses."@
    }
}

/// The hint that tells the transcriber how to cut its text into segments,
/// in the language of the audio where there is one for it.
pub fn transcription_prompt(language: &str) -> (hint: &'static str)
    ensures
        hint@ == hint_for(language@),
{
    if same_text(language, "en") {
        "Please segment based on complete sentences and natural speech pauses. Avoid breaking mid-sentence."
    } else if same_text(language, "zh") {
        "请严格按照完整句子和自然停顿分段。避免在句子中间断开。"
    } else if same_text(language, "ja") {
        "文章の完全な意味と自な休止点に基づいて分割してください。文の途中で区切らないでください。"
    } else {
        "Please segment based on complete sentences and natural speech pauses."
    }
}

} // verus!
