//! Plain types and pure helpers of the text-to-speech front end. The HTTP
//! providers live outside the core; the selection rules, the voice
//! catalogs and the request validation live here.

use crate::secrets::{has_murf_api_key, has_tts_api_key, spec_has_secret, SecretStore};
use crate::text::{eq_ignore_ascii_case, spec_ascii_lower, str_eq};
use vstd::prelude::*;
use vstd::string::StringSliceAdditionalSpecFns;

verus! {

/// The supported TTS providers.
#[derive(Debug, Clone, Copy, PartialEq, Eq, Structural)]
pub enum TTSProviderType {
    Qwen,
    Murf,
}

impl TTSProviderType {
    pub fn as_str(&self) -> (r: &'static str)
        ensures
            *self is Qwen ==> r@ == "qwen"@,
            *self is Murf ==> r@ == "murf"@,
    {
        match self {
            TTSProviderType::Qwen => "qwen",
            TTSProviderType::Murf => "murf",
        }
    }

    /// Parse a provider name, ASCII case-insensitively.
    pub fn from_str(s: &str) -> (r: Option<TTSProviderType>)
        ensures
            r == (if spec_ascii_lower(s@) == "qwen"@ {
                Some(TTSProviderType::Qwen)
            } else if spec_ascii_lower(s@) == "murf"@ {
                Some(TTSProviderType::Murf)
            } else {
                None::<TTSProviderType>
            }),
    {
        if eq_ignore_ascii_case(s, "qwen") {
            Some(TTSProviderType::Qwen)
        } else if eq_ignore_ascii_case(s, "murf") {
            Some(TTSProviderType::Murf)
        } else {
            None
        }
    }

    /// Every supported provider.
    pub fn all() -> (r: Vec<TTSProviderType>)
        ensures
            r@.len() == 2,
            r@[0] is Qwen,
            r@[1] is Murf,
    {
        let mut v: Vec<TTSProviderType> = Vec::new();
        v.push(TTSProviderType::Qwen);
        v.push(TTSProviderType::Murf);
        v
    }
}

/// The audio container formats a synthesis can ask for.
#[derive(Debug, Clone, Copy, PartialEq, Eq, Structural)]
pub enum TTSOutputFormat {
    Mp3,
    Wav,
    Ogg,
}

/// A synthesis response: the audio in one of several carriers, and what
/// produced it.
#[derive(Debug)]
pub struct TTSResponse {
    pub audio_bytes: Option<Vec<u8>>,
    pub audio_file: Option<String>,
    pub audio_base64: Option<String>,
    pub format: String,
    pub duration_ms: Option<u32>,
    pub provider: String,
    pub model: String,
    pub voice: String,
}

/// One voice a provider offers.
#[derive(Debug)]
pub struct TTSVoice {
    pub id: String,
    pub name: String,
    pub language: String,
    pub gender: Option<String>,
    pub description: Option<String>,
}

/// Errors of TTS operations.
#[derive(Debug)]
pub enum TTSError {
    NoApiKey,
    AuthenticationFailed(String),
    RateLimitExceeded(String),
    Timeout,
    NetworkError(String),
    ProviderError(String),
    UnsupportedLanguage(String),
    TextTooLong(usize, usize),
    Unknown(String),
}

impl TTSError {
    /// Whether a retry may help.
    pub fn is_retryable(&self) -> (r: bool)
        ensures
            r == (*self is Timeout || *self is NetworkError || *self is RateLimitExceeded),
    {
        match self {
            TTSError::Timeout => true,
            TTSError::NetworkError(_) => true,
            TTSError::RateLimitExceeded(_) => true,
            _ => false,
        }
    }

    /// Whether the error points at authentication.
    pub fn is_auth_error(&self) -> (r: bool)
        ensures
            r == (*self is NoApiKey || *self is AuthenticationFailed),
    {
        match self {
            TTSError::NoApiKey => true,
            TTSError::AuthenticationFailed(_) => true,
            _ => false,
        }
    }
}

/// Reject a synthesis text over the provider limit, measured in bytes.
pub fn validate_text_length(text: &str, max: usize) -> (r: Result<(), TTSError>)
    ensures
        r is Ok <==> (text.spec_bytes().len() as usize) <= max,
        r matches Err(e) ==> e matches TTSError::TextTooLong(n, m) && n == (
        text.spec_bytes().len() as usize) && m == max,
{
    if text.len() > max {
        Err(TTSError::TextTooLong(text.len(), max))
    } else {
        Ok(())
    }
}

/// The format name the Murf API expects.
pub fn map_format(format: &TTSOutputFormat) -> (r: &'static str)
    ensures
        *format is Mp3 ==> r@ == "MP3"@,
        *format is Wav ==> r@ == "WAV"@,
        *format is Ogg ==> r@ == "OGG"@,
{
    match format {
        TTSOutputFormat::Mp3 => "MP3",
        TTSOutputFormat::Wav => "WAV",
        TTSOutputFormat::Ogg => "OGG",
    }
}

/// The lowercase format name reported in responses.
pub fn format_to_string(format: &TTSOutputFormat) -> (r: &'static str)
    ensures
        *format is Mp3 ==> r@ == "mp3"@,
        *format is Wav ==> r@ == "wav"@,
        *format is Ogg ==> r@ == "ogg"@,
{
    match format {
        TTSOutputFormat::Mp3 => "mp3",
        TTSOutputFormat::Wav => "wav",
        TTSOutputFormat::Ogg => "ogg",
    }
}

/// The Murf voice used when none is asked for, by language.
pub open spec fn spec_murf_default_voice(language: Option<Seq<char>>) -> Seq<char> {
    match language {
        None => "en-US-natalie"@,
        Some(l) => {
            if l == "en"@ || l == "en-US"@ {
                "en-US-natalie"@
            } else if l == "en-GB"@ || l == "en-UK"@ {
                "en-UK-ruby"@
            } else if l == "en-AU"@ {
                "en-AU-kylie"@
            } else if l == "en-IN"@ {
                "en-IN-aarav"@
            } else if l == "es"@ || l == "es-ES"@ {
                "es-ES-elvira"@
            } else if l == "fr"@ || l == "fr-FR"@ {
                "fr-FR-adélie"@
            } else if l == "de"@ || l == "de-DE"@ {
                "de-DE-matthias"@
            } else if l == "it"@ || l == "it-IT"@ {
                "it-IT-greta"@
            } else if l == "pt"@ || l == "pt-BR"@ {
                "pt-BR-isadora"@
            } else if l == "zh"@ || l == "zh-CN"@ {
                "zh-CN-tao"@
            } else if l == "ja"@ || l == "ja-JP"@ {
                "ja-JP-kenji"@
            } else if l == "ko"@ || l == "ko-KR"@ {
                "ko-KR-gyeong"@
            } else {
                "en-US-natalie"@
            }
        },
    }
}

/// The Murf voice for a request: a nonempty explicit voice wins, else the
/// language's default.
pub open spec fn spec_murf_voice(language: Option<Seq<char>>, voice: Option<Seq<char>>) -> Seq<
    char,
> {
    if voice is Some && voice->0.len() > 0 {
        voice->0
    } else {
        spec_murf_default_voice(language)
    }
}

/// Select the Murf voice for a request.
pub fn select_voice(language: Option<&str>, voice: Option<&str>) -> (r: String)
    ensures
        r@ == spec_murf_voice(language.deep_view(), voice.deep_view()),
{
    if let Some(v) = voice {
        if v.unicode_len() > 0 {
            return v.to_owned();
        }
    }
    match language {
        None => String::from_str("en-US-natalie"),
        Some(l) => {
            if str_eq(l, "en") || str_eq(l, "en-US") {
                String::from_str("en-US-natalie")
            } else if str_eq(l, "en-GB") || str_eq(l, "en-UK") {
                String::from_str("en-UK-ruby")
            } else if str_eq(l, "en-AU") {
                String::from_str("en-AU-kylie")
            } else if str_eq(l, "en-IN") {
                String::from_str("en-IN-aarav")
            } else if str_eq(l, "es") || str_eq(l, "es-ES") {
                String::from_str("es-ES-elvira")
            } else if str_eq(l, "fr") || str_eq(l, "fr-FR") {
                String::from_str("fr-FR-adélie")
            } else if str_eq(l, "de") || str_eq(l, "de-DE") {
                String::from_str("de-DE-matthias")
            } else if str_eq(l, "it") || str_eq(l, "it-IT") {
                String::from_str("it-IT-greta")
            } else if str_eq(l, "pt") || str_eq(l, "pt-BR") {
                String::from_str("pt-BR-isadora")
            } else if str_eq(l, "zh") || str_eq(l, "zh-CN") {
                String::from_str("zh-CN-tao")
            } else if str_eq(l, "ja") || str_eq(l, "ja-JP") {
                String::from_str("ja-JP-kenji")
            } else if str_eq(l, "ko") || str_eq(l, "ko-KR") {
                String::from_str("ko-KR-gyeong")
            } else {
                String::from_str("en-US-natalie")
            }
        },
    }
}

/// A requested Qwen voice id mapped to the capitalized API name; an unknown
/// id passes through unchanged.
pub open spec fn spec_qwen_voice_name(v: Seq<char>) -> Seq<char> {
    let l = spec_ascii_lower(v);
    if l == "cherry"@ {
        "Cherry"@
    } else if l == "ethan"@ {
        "Ethan"@
    } else if l == "nofish"@ {
        "Nofish"@
    } else if l == "jennifer"@ {
        "Jennifer"@
    } else if l == "ryan"@ {
        "Ryan"@
    } else if l == "katerina"@ {
        "Katerina"@
    } else if l == "elias"@ {
        "Elias"@
    } else if l == "jada"@ {
        "Jada"@
    } else if l == "dylan"@ {
        "Dylan"@
    } else if l == "sunny"@ {
        "Sunny"@
    } else {
        v
    }
}

/// The Qwen voice and language tag for a request: an explicit voice is
/// mapped to its API name with no language tag, else the language picks a
/// default voice and tag.
pub open spec fn spec_qwen_selection(
    language: Option<Seq<char>>,
    voice: Option<Seq<char>>,
) -> (Seq<char>, Option<Seq<char>>) {
    match voice {
        Some(v) => (spec_qwen_voice_name(v), None::<Seq<char>>),
        None => match language {
            Some(l) => {
                if l == "en"@ || l == "en-US"@ {
                    ("Ethan"@, Some("English"@))
                } else if l == "zh"@ || l == "zh-CN"@ {
                    ("Cherry"@, Some("Chinese"@))
                } else if l == "ja"@ || l == "ja-JP"@ {
                    ("Ethan"@, Some("Japanese"@))
                } else if l == "ko"@ || l == "ko-KR"@ {
                    ("Ethan"@, Some("Korean"@))
                } else {
                    ("Cherry"@, Some("Chinese"@))
                }
            },
            None => ("Cherry"@, Some("Chinese"@)),
        },
    }
}

/// Select the Qwen voice and language tag for a request.
pub fn select_voice_and_language(language: Option<&str>, voice: Option<&str>) -> (r: (
    String,
    Option<String>,
))
    ensures
        r.0@ == spec_qwen_selection(language.deep_view(), voice.deep_view()).0,
        r.1.deep_view() == spec_qwen_selection(language.deep_view(), voice.deep_view()).1,
{
    if let Some(v) = voice {
        let name = if eq_ignore_ascii_case(v, "cherry") {
            String::from_str("Cherry")
        } else if eq_ignore_ascii_case(v, "ethan") {
            String::from_str("Ethan")
        } else if eq_ignore_ascii_case(v, "nofish") {
            String::from_str("Nofish")
        } else if eq_ignore_ascii_case(v, "jennifer") {
            String::from_str("Jennifer")
        } else if eq_ignore_ascii_case(v, "ryan") {
            String::from_str("Ryan")
        } else if eq_ignore_ascii_case(v, "katerina") {
            String::from_str("Katerina")
        } else if eq_ignore_ascii_case(v, "elias") {
            String::from_str("Elias")
        } else if eq_ignore_ascii_case(v, "jada") {
            String::from_str("Jada")
        } else if eq_ignore_ascii_case(v, "dylan") {
            String::from_str("Dylan")
        } else if eq_ignore_ascii_case(v, "sunny") {
            String::from_str("Sunny")
        } else {
            v.to_owned()
        };
        return (name, None);
    }
    match language {
        Some(l) => {
            if str_eq(l, "en") || str_eq(l, "en-US") {
                (String::from_str("Ethan"), Some(String::from_str("English")))
            } else if str_eq(l, "zh") || str_eq(l, "zh-CN") {
                (String::from_str("Cherry"), Some(String::from_str("Chinese")))
            } else if str_eq(l, "ja") || str_eq(l, "ja-JP") {
                (String::from_str("Ethan"), Some(String::from_str("Japanese")))
            } else if str_eq(l, "ko") || str_eq(l, "ko-KR") {
                (String::from_str("Ethan"), Some(String::from_str("Korean")))
            } else {
                (String::from_str("Cherry"), Some(String::from_str("Chinese")))
            }
        },
        None => (String::from_str("Cherry"), Some(String::from_str("Chinese"))),
    }
}

/// The voice used when neither the request nor the saved settings name one.
pub fn default_voice_for(provider_type: TTSProviderType) -> (r: Option<String>)
    ensures
        r matches Some(v) && (provider_type is Qwen ==> v@ == "cherry"@) && (provider_type is Murf
            ==> v@ == "en-US-natalie"@),
{
    match provider_type {
        TTSProviderType::Qwen => Some(String::from_str("cherry")),
        TTSProviderType::Murf => Some(String::from_str("en-US-natalie")),
    }
}

/// The names of every supported provider.
pub fn list_tts_providers() -> (r: Vec<String>)
    ensures
        r@.len() == 2,
        r@[0]@ == "qwen"@,
        r@[1]@ == "murf"@,
{
    let mut v: Vec<String> = Vec::new();
    v.push(String::from_str("qwen"));
    v.push(String::from_str("murf"));
    v
}

/// Whether any TTS provider has a key in the secret store.
pub fn is_configured(vault: &SecretStore) -> (r: bool)
    ensures
        r == (spec_has_secret(vault@, "tts-api-key"@) || spec_has_secret(vault@, "murf-api-key"@)),
{
    has_tts_api_key(vault) || has_murf_api_key(vault)
}

/// Whether one specific provider has a key in the secret store.
pub fn is_provider_configured(vault: &SecretStore, provider_type: TTSProviderType) -> (r: bool)
    ensures
        provider_type is Qwen ==> r == spec_has_secret(vault@, "tts-api-key"@),
        provider_type is Murf ==> r == spec_has_secret(vault@, "murf-api-key"@),
{
    match provider_type {
        TTSProviderType::Qwen => has_tts_api_key(vault),
        TTSProviderType::Murf => has_murf_api_key(vault),
    }
}

/// The provider a synthesis request runs on: the one the request names,
/// else the configured one, else Qwen.
pub fn resolve_provider(requested: Option<&str>, configured: &str) -> (r: TTSProviderType)
    ensures
        ({
            let name = match requested {
                Some(s) => s@,
                None => configured@,
            };
            r == (if spec_ascii_lower(name) == "murf"@ {
                TTSProviderType::Murf
            } else {
                TTSProviderType::Qwen
            })
        }),
{
    let name = match requested {
        Some(s) => s,
        None => configured,
    };
    proof {
        reveal_strlit("qwen");
        reveal_strlit("murf");
        assert("qwen"@[0] != "murf"@[0]);
        assert("qwen"@ != "murf"@);
    }
    match TTSProviderType::from_str(name) {
        Some(p) => p,
        None => TTSProviderType::Qwen,
    }
}

/// The default model of a provider name: Murf has its own, anything else is
/// the Qwen service.
pub fn default_model_for(provider: &str) -> (r: &'static str)
    ensures
        provider@ == "murf"@ ==> r@ == "GEN2"@,
        provider@ != "murf"@ ==> r@ == "qwen3-tts-flash"@,
{
    if str_eq(provider, "murf") {
        "GEN2"
    } else {
        "qwen3-tts-flash"
    }
}

/// The stored API key that serves a provider name, or the error shown when
/// none is configured.
pub fn tts_api_key_for(vault: &SecretStore, provider: &str) -> (r: Result<
    String,
    crate::error::AppError,
>)
    ensures
        ({
            let name = if provider@ == "murf"@ {
                "murf-api-key"@
            } else {
                "tts-api-key"@
            };
            match crate::secrets::spec_secret_nonempty(vault@, name) {
                Some(v) => r matches Ok(k) && k@ == v,
                None => r matches Err(e) && e@ == (if provider@ == "murf"@ {
                    crate::error::ErrorView::TTS("Murf API key not configured"@)
                } else {
                    crate::error::ErrorView::TTS("API key not configured"@)
                }),
            }
        }),
{
    if str_eq(provider, "murf") {
        match crate::secrets::get_murf_api_key(vault) {
            Ok(Some(k)) => Ok(k),
            _ => Err(crate::error::AppError::TTS("Murf API key not configured".to_owned())),
        }
    } else {
        match crate::secrets::get_tts_api_key(vault) {
            Ok(Some(k)) => Ok(k),
            _ => Err(crate::error::AppError::TTS("API key not configured".to_owned())),
        }
    }
}

/// Store a provider's API key under its own name; the masked placeholder
/// leaves the stored key untouched.
pub fn save_tts_provider_key(vault: &mut SecretStore, provider: &str, api_key: &str) -> (r:
    Result<(), crate::error::AppError>)
    requires
        old(vault).wf(),
    ensures
        final(vault).wf(),
        r is Ok,
        ({
            if api_key@ == "***"@ {
                final(vault)@ == old(vault)@
            } else if provider@ == "murf"@ {
                final(vault)@ == crate::secrets::spec_secret_set(
                    old(vault)@,
                    "murf-api-key"@,
                    api_key@,
                )
            } else {
                final(vault)@ == crate::secrets::spec_secret_set(
                    old(vault)@,
                    "tts-api-key"@,
                    api_key@,
                )
            }
        }),
{
    if str_eq(api_key, "***") {
        return Ok(());
    }
    if str_eq(provider, "murf") {
        crate::secrets::set_murf_api_key(vault, api_key)
    } else {
        crate::secrets::set_tts_api_key(vault, api_key)
    }
}

/// The Murf voice catalog shown to the user: a fixed subset of the
/// provider's voices.
pub fn murf_voices() -> (r: Vec<TTSVoice>)
    ensures
        r@.len() == 37,
        r@[0].id@ == "en-US-natalie"@,
{
    let v: Vec<TTSVoice> = vec![
TTSVoice {
                id: String::from_str("en-US-natalie"),
                name: String::from_str("Natalie"),
                language: String::from_str("en-US"),
                gender: Some(String::from_str("female")),
                description: Some(String::from_str("Friendly and warm voice")),
            },
            TTSVoice {
                id: String::from_str("en-US-terrell"),
                name: String::from_str("Terrell"),
                language: String::from_str("en-US"),
                gender: Some(String::from_str("male")),
                description: Some(String::from_str("Calm, conversational voice")),
            },
            TTSVoice {
                id: String::from_str("en-US-ariana"),
                name: String::from_str("Ariana"),
                language: String::from_str("en-US"),
                gender: Some(String::from_str("female")),
                description: Some(String::from_str("Conversational, narration voice")),
            },
            TTSVoice {
                id: String::from_str("en-US-miles"),
                name: String::from_str("Miles"),
                language: String::from_str("en-US"),
                gender: Some(String::from_str("male")),
                description: Some(String::from_str("Versatile voice with many styles")),
            },
            TTSVoice {
                id: String::from_str("en-US-marcus"),
                name: String::from_str("Marcus"),
                language: String::from_str("en-US"),
                gender: Some(String::from_str("male")),
                description: Some(String::from_str("Conversational and friendly voice")),
            },
            TTSVoice {
                id: String::from_str("en-US-amara"),
                name: String::from_str("Amara"),
                language: String::from_str("en-US"),
                gender: Some(String::from_str("female")),
                description: Some(String::from_str("Conversational, narration voice")),
            },
            TTSVoice {
                id: String::from_str("en-US-samantha"),
                name: String::from_str("Samantha"),
                language: String::from_str("en-US"),
                gender: Some(String::from_str("female")),
                description: Some(String::from_str("Expressive voice with multiple styles")),
            },
            TTSVoice {
                id: String::from_str("en-US-ryan"),
                name: String::from_str("Ryan"),
                language: String::from_str("en-US"),
                gender: Some(String::from_str("male")),
                description: Some(String::from_str("Conversational, promo voice")),
            },
            TTSVoice {
                id: String::from_str("en-UK-theo"),
                name: String::from_str("Theo"),
                language: String::from_str("en-UK"),
                gender: Some(String::from_str("male")),
                description: Some(String::from_str("Narration, multi-language support")),
            },
            TTSVoice {
                id: String::from_str("en-UK-ruby"),
                name: String::from_str("Ruby"),
                language: String::from_str("en-UK"),
                gender: Some(String::from_str("female")),
                description: Some(String::from_str("Calm, conversational voice")),
            },
            TTSVoice {
                id: String::from_str("en-UK-hazel"),
                name: String::from_str("Hazel"),
                language: String::from_str("en-UK"),
                gender: Some(String::from_str("female")),
                description: Some(String::from_str("Conversational voice")),
            },
            TTSVoice {
                id: String::from_str("en-UK-freddie"),
                name: String::from_str("Freddie"),
                language: String::from_str("en-UK"),
                gender: Some(String::from_str("male")),
                description: Some(String::from_str("Conversational, narration voice")),
            },
            TTSVoice {
                id: String::from_str("en-UK-juliet"),
                name: String::from_str("Juliet"),
                language: String::from_str("en-UK"),
                gender: Some(String::from_str("female")),
                description: Some(String::from_str("Conversational, narration voice")),
            },
            TTSVoice {
                id: String::from_str("en-AU-kylie"),
                name: String::from_str("Kylie"),
                language: String::from_str("en-AU"),
                gender: Some(String::from_str("female")),
                description: Some(String::from_str("Australian accent, calm voice")),
            },
            TTSVoice {
                id: String::from_str("en-AU-jimm"),
                name: String::from_str("Jimm"),
                language: String::from_str("en-AU"),
                gender: Some(String::from_str("male")),
                description: Some(String::from_str("Conversational, narration voice")),
            },
            TTSVoice {
                id: String::from_str("en-AU-harper"),
                name: String::from_str("Harper"),
                language: String::from_str("en-AU"),
                gender: Some(String::from_str("female")),
                description: Some(String::from_str("Casual, conversational voice")),
            },
            TTSVoice {
                id: String::from_str("en-IN-aarav"),
                name: String::from_str("Aarav"),
                language: String::from_str("en-IN"),
                gender: Some(String::from_str("male")),
                description: Some(String::from_str("Indian accent, conversational voice")),
            },
            TTSVoice {
                id: String::from_str("en-IN-arohi"),
                name: String::from_str("Arohi"),
                language: String::from_str("en-IN"),
                gender: Some(String::from_str("female")),
                description: Some(String::from_str("Indian accent, conversational voice")),
            },
            TTSVoice {
                id: String::from_str("en-IN-rohan"),
                name: String::from_str("Rohan"),
                language: String::from_str("en-IN"),
                gender: Some(String::from_str("male")),
                description: Some(String::from_str("Indian accent, narration voice")),
            },
            TTSVoice {
                id: String::from_str("en-IN-alia"),
                name: String::from_str("Alia"),
                language: String::from_str("en-IN"),
                gender: Some(String::from_str("female")),
                description: Some(String::from_str("Indian accent, documentary voice")),
            },
            TTSVoice {
                id: String::from_str("es-ES-elvira"),
                name: String::from_str("Elvira"),
                language: String::from_str("es-ES"),
                gender: Some(String::from_str("female")),
                description: Some(String::from_str("Spanish voice, conversational")),
            },
            TTSVoice {
                id: String::from_str("es-ES-enrique"),
                name: String::from_str("Enrique"),
                language: String::from_str("es-ES"),
                gender: Some(String::from_str("male")),
                description: Some(String::from_str("Spanish voice, calm")),
            },
            TTSVoice {
                id: String::from_str("fr-FR-adélie"),
                name: String::from_str("Adélie"),
                language: String::from_str("fr-FR"),
                gender: Some(String::from_str("female")),
                description: Some(String::from_str("French voice, calm and conversational")),
            },
            TTSVoice {
                id: String::from_str("fr-FR-guillaume"),
                name: String::from_str("Guillaume"),
                language: String::from_str("fr-FR"),
                gender: Some(String::from_str("male")),
                description: Some(String::from_str("French voice, conversational")),
            },
            TTSVoice {
                id: String::from_str("fr-FR-axel"),
                name: String::from_str("Axel"),
                language: String::from_str("fr-FR"),
                gender: Some(String::from_str("male")),
                description: Some(String::from_str("French voice, conversational")),
            },
            TTSVoice {
                id: String::from_str("de-DE-matthias"),
                name: String::from_str("Matthias"),
                language: String::from_str("de-DE"),
                gender: Some(String::from_str("male")),
                description: Some(String::from_str("German voice, conversational")),
            },
            TTSVoice {
                id: String::from_str("de-DE-björn"),
                name: String::from_str("Björn"),
                language: String::from_str("de-DE"),
                gender: Some(String::from_str("male")),
                description: Some(String::from_str("German voice, conversational")),
            },
            TTSVoice {
                id: String::from_str("it-IT-greta"),
                name: String::from_str("Greta"),
                language: String::from_str("it-IT"),
                gender: Some(String::from_str("female")),
                description: Some(String::from_str("Italian voice, conversational")),
            },
            TTSVoice {
                id: String::from_str("it-IT-giorgio"),
                name: String::from_str("Giorgio"),
                language: String::from_str("it-IT"),
                gender: Some(String::from_str("male")),
                description: Some(String::from_str("Italian voice, conversational")),
            },
            TTSVoice {
                id: String::from_str("pt-BR-isadora"),
                name: String::from_str("Isadora"),
                language: String::from_str("pt-BR"),
                gender: Some(String::from_str("female")),
                description: Some(String::from_str("Portuguese (Brazil) voice, conversational")),
            },
            TTSVoice {
                id: String::from_str("pt-BR-benício"),
                name: String::from_str("Benício"),
                language: String::from_str("pt-BR"),
                gender: Some(String::from_str("male")),
                description: Some(String::from_str("Portuguese (Brazil) voice, conversational")),
            },
            TTSVoice {
                id: String::from_str("zh-CN-tao"),
                name: String::from_str("Tao"),
                language: String::from_str("zh-CN"),
                gender: Some(String::from_str("male")),
                description: Some(String::from_str("Chinese Mandarin voice")),
            },
            TTSVoice {
                id: String::from_str("zh-CN-jiao"),
                name: String::from_str("Jiao"),
                language: String::from_str("zh-CN"),
                gender: Some(String::from_str("female")),
                description: Some(String::from_str("Chinese Mandarin voice")),
            },
            TTSVoice {
                id: String::from_str("ja-JP-kenji"),
                name: String::from_str("Kenji"),
                language: String::from_str("ja-JP"),
                gender: Some(String::from_str("male")),
                description: Some(String::from_str("Japanese voice, conversational")),
            },
            TTSVoice {
                id: String::from_str("ja-JP-kimi"),
                name: String::from_str("Kimi"),
                language: String::from_str("ja-JP"),
                gender: Some(String::from_str("female")),
                description: Some(String::from_str("Japanese voice, conversational")),
            },
            TTSVoice {
                id: String::from_str("ko-KR-gyeong"),
                name: String::from_str("Gyeong"),
                language: String::from_str("ko-KR"),
                gender: Some(String::from_str("female")),
                description: Some(String::from_str("Korean voice, conversational")),
            },
            TTSVoice {
                id: String::from_str("ko-KR-hwan"),
                name: String::from_str("Hwan"),
                language: String::from_str("ko-KR"),
                gender: Some(String::from_str("male")),
                description: Some(String::from_str("Korean voice, calm")),
            }
    ];
    v
}

/// The Qwen voice catalog shown to the user.
pub fn qwen_voices() -> (r: Vec<TTSVoice>)
    ensures
        r@.len() == 10,
        r@[0].id@ == "cherry"@,
{
    let v: Vec<TTSVoice> = vec![
TTSVoice {
                id: String::from_str("cherry"),
                name: String::from_str("Cherry (芊悦)"),
                language: String::from_str("zh-CN"),
                gender: Some(String::from_str("female")),
                description: Some(String::from_str("阳光积极、亲切自然小姐姐")),
            },
            TTSVoice {
                id: String::from_str("ethan"),
                name: String::from_str("Ethan (晨煦)"),
                language: String::from_str("zh-CN"),
                gender: Some(String::from_str("male")),
                description: Some(String::from_str("标准普通话，阳光温暖有活力的男声")),
            },
            TTSVoice {
                id: String::from_str("nofish"),
                name: String::from_str("Nofish (不吃鱼)"),
                language: String::from_str("zh-CN"),
                gender: Some(String::from_str("neutral")),
                description: Some(String::from_str("中性音色")),
            },
            TTSVoice {
                id: String::from_str("ryan"),
                name: String::from_str("Ryan (甜茶)"),
                language: String::from_str("zh-CN"),
                gender: Some(String::from_str("male")),
                description: Some(String::from_str("节奏拉满，戏感炸裂，真实与张力共舞")),
            },
            TTSVoice {
                id: String::from_str("jennifer"),
                name: String::from_str("Jennifer (詹妮弗)"),
                language: String::from_str("en-US"),
                gender: Some(String::from_str("female")),
                description: Some(String::from_str("品牌级、电影质感般美语女声")),
            },
            TTSVoice {
                id: String::from_str("katerina"),
                name: String::from_str("Katerina (卡捷琳娜)"),
                language: String::from_str("en-US"),
                gender: Some(String::from_str("female")),
                description: Some(String::from_str("御姐音色，韵律回味十足")),
            },
            TTSVoice {
                id: String::from_str("elias"),
                name: String::from_str("Elias (墨讲师)"),
                language: String::from_str("en-US"),
                gender: Some(String::from_str("male")),
                description: Some(String::from_str("严谨学科，叙事技巧")),
            },
            TTSVoice {
                id: String::from_str("jada"),
                name: String::from_str("Jada (上海-阿珍)"),
                language: String::from_str("zh-CN"),
                gender: Some(String::from_str("female")),
                description: Some(String::from_str("风风火火的沪上阿姐")),
            },
            TTSVoice {
                id: String::from_str("dylan"),
                name: String::from_str("Dylan (北京-晓东)"),
                language: String::from_str("zh-CN"),
                gender: Some(String::from_str("male")),
                description: Some(String::from_str("北京胡同里长大的少年")),
            },
            TTSVoice {
                id: String::from_str("sunny"),
                name: String::from_str("Sunny (四川-晴儿)"),
                language: String::from_str("zh-CN"),
                gender: Some(String::from_str("female")),
                description: Some(String::from_str("甜到你心里的川妹子")),
            }
    ];
    v
}

} // verus!
