//! Plain types and pure helpers of the AI text-transformation front end.
//! The HTTP provider itself lives outside the core; what can be verified —
//! prompt building and settings handling — lives here.

use crate::error::AppError;
use crate::secrets::{
    delete_api_key, set_api_key, spec_has_secret, spec_secret_remove, spec_secret_set, SecretStore,
};
use crate::text::{spec_trim, str_eq, trim_ascii};
use vstd::prelude::*;

verus! {

/// An AI operation request.
#[derive(Debug)]
pub struct AIRequest {
    pub op_type: String,
    pub text: String,
    pub context: Option<String>,
}

/// An AI operation response.
#[derive(Debug)]
pub struct AIResponse {
    pub result: String,
    pub model: String,
    pub provider: String,
    pub tokens_used: Option<u32>,
}

/// Errors of AI operations.
#[derive(Debug)]
pub enum AIError {
    NoApiKey,
    AuthenticationFailed(String),
    RateLimitExceeded(String),
    Timeout,
    NetworkError(String),
    ProviderError(String),
    HttpError(String),
    QuotaExceeded,
    Unknown(String),
}

/// Settings of the AI provider; the key itself stays in the secret store.
#[derive(Debug)]
pub struct AISettings {
    pub provider: String,
    pub model: String,
    pub api_key: String,
}

/// Whether the text holds a character of the CJK Unified Ideographs block.
pub open spec fn spec_has_chinese(t: Seq<char>) -> bool {
    exists|i: int| 0 <= i < t.len() && 0x4E00 <= (#[trigger] t[i]) as u32 <= 0x9FFF
}

pub fn has_chinese(text: &str) -> (r: bool)
    ensures
        r == spec_has_chinese(text@),
{
    let len = text.unicode_len();
    let mut i: usize = 0;
    while i < len
        invariant
            i <= len,
            len == text@.len(),
            forall|j: int| 0 <= j < i ==> !(0x4E00 <= (#[trigger] text@[j]) as u32 <= 0x9FFF),
        decreases len - i,
    {
        let c = text.get_char(i) as u32;
        if 0x4E00 <= c && c <= 0x9FFF {
            return true;
        }
        i = i + 1;
    }
    false
}

/// The prompt sent to the AI provider for one operation kind. An unknown
/// kind passes the text through unchanged.
pub open spec fn spec_build_prompt(op: Seq<char>, text: Seq<char>, ctx: Option<Seq<char>>) -> Seq<
    char,
> {
    if op == "polish"@ {
        match ctx {
            Some(c) =>
                "You are a writing assistant. Polish the following text to improve clarity, grammar, and flow while maintaining the original meaning. Keep the response concise and only output the polished text.\n\nContext: "@
                + c + "\n\nText to polish: "@ + text,
            None =>
                "Polish the following text to improve clarity, grammar, and flow. Only output the polished text without explanation.\n\n"@
                + text,
        }
    } else if op == "expand"@ {
        match ctx {
            Some(c) =>
                "Expand the following text with more details and elaboration while keeping the same tone and style. Only output the expanded text.\n\nContext: "@
                + c + "\n\nText to expand: "@ + text,
            None =>
                "Expand the following text with more details and elaboration. Only output the expanded text.\n\n"@
                + text,
        }
    } else if op == "fix_grammar"@ {
        match ctx {
            Some(c) =>
                "Fix any grammar, spelling, or punctuation errors in the following text. Only output the corrected text.\n\nContext: "@
                + c + "\n\nText to fix: "@ + text,
            None =>
                "Fix any grammar, spelling, or punctuation errors in the following text. Only output the corrected text.\n\n"@
                + text,
        }
    } else if op == "translate"@ {
        "Translate the following text to "@ + (if spec_has_chinese(text) {
            "English"@
        } else {
            "Chinese (Simplified)"@
        }) + ". Only output the translation without explanation.\n\n"@ + text
    } else if op == "translate_to_zh"@ {
        "Translate the following text to "@ + "Chinese (Simplified)"@
            + ". Only output the translation without explanation.\n\n"@ + text
    } else if op == "translate_to_en"@ {
        "Translate the following text to "@ + "English"@
            + ". Only output the translation without explanation.\n\n"@ + text
    } else {
        text
    }
}

/// Build the provider prompt for one operation on a text, with an optional
/// surrounding context.
pub fn build_prompt(op_type: &str, text: &str, context: &Option<String>) -> (r: String)
    ensures
        r@ == spec_build_prompt(op_type@, text@, context.deep_view()),
{
    if str_eq(op_type, "polish") {
        match context {
            Some(c) => {
                let mut out = String::from_str(
                    "You are a writing assistant. Polish the following text to improve clarity, grammar, and flow while maintaining the original meaning. Keep the response concise and only output the polished text.\n\nContext: ",
                );
                out.append(c.as_str());
                out.append("\n\nText to polish: ");
                out.append(text);
                out
            },
            None => {
                let mut out = String::from_str(
                    "Polish the following text to improve clarity, grammar, and flow. Only output the polished text without explanation.\n\n",
                );
                out.append(text);
                out
            },
        }
    } else if str_eq(op_type, "expand") {
        match context {
            Some(c) => {
                let mut out = String::from_str(
                    "Expand the following text with more details and elaboration while keeping the same tone and style. Only output the expanded text.\n\nContext: ",
                );
                out.append(c.as_str());
                out.append("\n\nText to expand: ");
                out.append(text);
                out
            },
            None => {
                let mut out = String::from_str(
                    "Expand the following text with more details and elaboration. Only output the expanded text.\n\n",
                );
                out.append(text);
                out
            },
        }
    } else if str_eq(op_type, "fix_grammar") {
        match context {
            Some(c) => {
                let mut out = String::from_str(
                    "Fix any grammar, spelling, or punctuation errors in the following text. Only output the corrected text.\n\nContext: ",
                );
                out.append(c.as_str());
                out.append("\n\nText to fix: ");
                out.append(text);
                out
            },
            None => {
                let mut out = String::from_str(
                    "Fix any grammar, spelling, or punctuation errors in the following text. Only output the corrected text.\n\n",
                );
                out.append(text);
                out
            },
        }
    } else if str_eq(op_type, "translate") {
        let mut out = String::from_str("Translate the following text to ");
        if has_chinese(text) {
            out.append("English");
        } else {
            out.append("Chinese (Simplified)");
        }
        out.append(". Only output the translation without explanation.\n\n");
        out.append(text);
        out
    } else if str_eq(op_type, "translate_to_zh") {
        let mut out = String::from_str("Translate the following text to ");
        out.append("Chinese (Simplified)");
        out.append(". Only output the translation without explanation.\n\n");
        out.append(text);
        out
    } else if str_eq(op_type, "translate_to_en") {
        let mut out = String::from_str("Translate the following text to ");
        out.append("English");
        out.append(". Only output the translation without explanation.\n\n");
        out.append(text);
        out
    } else {
        text.to_owned()
    }
}

/// Store or clear the AI API key: an empty key removes the stored one, the
/// masked placeholder leaves it untouched, anything else replaces it.
pub fn save_ai_settings(vault: &mut SecretStore, settings: &AISettings) -> (r: Result<
    (),
    AppError,
>)
    requires
        old(vault).wf(),
    ensures
        final(vault).wf(),
        r is Ok,
        ({
            let t = spec_trim(settings.api_key@);
            if t.len() == 0 {
                final(vault)@ == spec_secret_remove(old(vault)@, "ai-api-key"@)
            } else if t != "***"@ {
                final(vault)@ == spec_secret_set(old(vault)@, "ai-api-key"@, t)
            } else {
                final(vault)@ == old(vault)@
            }
        }),
{
    let trimmed = trim_ascii(settings.api_key.as_str());
    if trimmed.unicode_len() == 0 {
        delete_api_key(vault)
    } else if !str_eq(trimmed, "***") {
        set_api_key(vault, trimmed)
    } else {
        // the UI sent the masked placeholder: keep the stored key
        Ok(())
    }
}

/// The AI settings to show: present exactly when a key is configured, with
/// the key masked.
pub fn get_ai_settings(vault: &SecretStore) -> (r: Result<Option<AISettings>, AppError>)
    ensures
        r matches Ok(o) && (match o {
            Some(st) => {
                &&& spec_has_secret(vault@, "ai-api-key"@)
                &&& st.provider@ == "zhipu"@
                &&& st.model@ == "glm-4-flash"@
                &&& st.api_key@ == "***"@
            },
            None => !spec_has_secret(vault@, "ai-api-key"@),
        }),
{
    if crate::secrets::has_api_key(vault) {
        Ok(
            Some(
                AISettings {
                    provider: String::from_str("zhipu"),
                    model: String::from_str("glm-4-flash"),
                    api_key: String::from_str("***"),
                },
            ),
        )
    } else {
        Ok(None)
    }
}

} // verus!
