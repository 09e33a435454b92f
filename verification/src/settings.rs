use vstd::prelude::*;
use crate::domain::{AppSettings, DiagnosisCheck, ModelDiagnosis};
use crate::numfmt::{parse_i64, parse_i64_spec, parse_unsigned_spec, parse_usize};
use crate::text::{chars_of, string_of, trim, trim_chars};

verus! {

pub open spec fn opt_view(o: Option<&str>) -> Option<Seq<char>> {
    match o {
        Some(s) => Some(s@),
        None => None,
    }
}

pub open spec fn opt_string_view(o: Option<String>) -> Option<Seq<char>> {
    match o {
        Some(s) => Some(s@),
        None => None,
    }
}

/// A stored integer setting: its value when it reads as an `i64`, else `default`.
pub open spec fn i64_setting(value: Option<Seq<char>>, default: i64) -> i64 {
    match value {
        Some(v) => match parse_i64_spec(v) {
            Some(n) => n as i64,
            None => default,
        },
        None => default,
    }
}

/// A stored count setting: its value when it reads as a `usize`, else `default`.
pub open spec fn usize_setting(value: Option<Seq<char>>, default: usize) -> usize {
    match value {
        Some(v) => match parse_unsigned_spec(v, usize::MAX as nat) {
            Some(n) => n as usize,
            None => default,
        },
        None => default,
    }
}

pub fn i64_setting_or(value: Option<&str>, default: i64) -> (r: i64)
    ensures
        r == i64_setting(opt_view(value), default),
{
    match value {
        Some(v) => match parse_i64(v) {
            Some(n) => n,
            None => default,
        },
        None => default,
    }
}

pub fn usize_setting_or(value: Option<&str>, default: usize) -> (r: usize)
    ensures
        r == usize_setting(opt_view(value), default),
{
    match value {
        Some(v) => match parse_usize(v) {
            Some(n) => n,
            None => default,
        },
        None => default,
    }
}

/// Chapters per batch when none is stored.
pub const DEFAULT_CHAPTER_BATCH_SIZE: i64 = 30;

/// Parallel review requests when none is stored.
pub const DEFAULT_REVIEW_PARALLELISM: i64 = 10;

/// The settings from their stored values: the export folder and selected profile as stored,
/// the counts as stored when they read as numbers, else their defaults.
pub fn app_settings_from(
    export_dir: Option<String>,
    selected_profile_id: Option<String>,
    chapter_batch_size: Option<&str>,
    review_parallelism: Option<&str>,
) -> (r: AppSettings)
    ensures
        r.export_dir == export_dir,
        r.selected_profile_id == selected_profile_id,
        r.chapter_batch_size == i64_setting(opt_view(chapter_batch_size), DEFAULT_CHAPTER_BATCH_SIZE),
        r.review_parallelism == i64_setting(opt_view(review_parallelism), DEFAULT_REVIEW_PARALLELISM),
{
    AppSettings {
        export_dir,
        chapter_batch_size: i64_setting_or(chapter_batch_size, DEFAULT_CHAPTER_BATCH_SIZE),
        review_parallelism: i64_setting_or(review_parallelism, DEFAULT_REVIEW_PARALLELISM),
        selected_profile_id,
    }
}

/// The placeholder the settings form shows for a stored key.
pub open spec fn masked_key() -> Seq<char> {
    "********"@
}

/// The API key entered in the profile form: trimmed; `None` when blank or when it is the
/// placeholder of a stored key, which keeps the stored key.
pub open spec fn entered_key(input: Option<Seq<char>>) -> Option<Seq<char>> {
    match input {
        Some(k) => if trim(k).len() > 0 && trim(k) != masked_key() {
            Some(trim(k))
        } else {
            None
        },
        None => None,
    }
}

pub fn normalize_api_key_input(api_key: Option<&str>) -> (r: Option<String>)
    ensures
        opt_string_view(r) == entered_key(opt_view(api_key)),
{
    match api_key {
        None => None,
        Some(k) => {
            let t = string_of(trim_chars(&chars_of(k)).as_slice());
            let masked = String::from_str("********");
            if t.as_str().unicode_len() > 0 && t != masked {
                Some(t)
            } else {
                None
            }
        },
    }
}

/// Where the key of a profile comes from.
#[derive(Debug)]
pub enum ApiKeySource {
    /// The system credential store holds it.
    Keyring,
    /// The profile stores it (empty when it has none).
    Stored(String),
}

/// The marker stored in place of a key kept in the credential store.
pub open spec fn keyring_marker() -> Seq<char> {
    "__KEYRING__"@
}

/// The source of a profile's key from what the profile stores: the credential store for
/// the marker, the stored text otherwise, the empty key when nothing is stored.
pub fn api_key_source(stored: Option<&str>) -> (r: ApiKeySource)
    ensures
        stored matches Some(s) && s@ == keyring_marker() ==> r is Keyring,
        !(stored matches Some(s) && s@ == keyring_marker()) ==> (r matches ApiKeySource::Stored(k) && k@ == match stored {
            Some(s) => s@,
            None => Seq::empty(),
        }),
{
    proof {
        reveal_strlit("");
    }
    match stored {
        None => ApiKeySource::Stored(String::new()),
        Some(s) => {
            if String::from_str(s) == String::from_str("__KEYRING__") {
                ApiKeySource::Keyring
            } else {
                ApiKeySource::Stored(String::from_str(s))
            }
        },
    }
}

/// The key for a profile whose key is in the credential store: the stored credential, or
/// the empty key when there is none.
pub fn key_from_store(found: Option<String>) -> (r: String)
    ensures
        r@ == match found {
            Some(k) => k@,
            None => Seq::empty(),
        },
{
    match found {
        Some(k) => k,
        None => String::new(),
    }
}

// ---------------------------------------------------------------------------
// Profile diagnosis
// ---------------------------------------------------------------------------

pub open spec fn check_view(c: DiagnosisCheck) -> (Seq<char>, Seq<char>, Seq<char>) {
    (c.name@, c.status@, c.message@)
}

/// The placeholder model name of a new profile.
pub open spec fn model_placeholder() -> Seq<char> {
    "请填写模型名"@
}

/// The three checks of a profile: API key (ok or a warning), base URL (ok or failed) and
/// model name (failed when empty or still the placeholder).
pub open spec fn diagnosis_checks(has_api_key: bool, base_url: Seq<char>, model: Seq<char>) -> Seq<(Seq<char>, Seq<char>, Seq<char>)> {
    seq![
        if has_api_key {
            ("API Key"@, "ok"@, "API Key 已配置"@)
        } else {
            ("API Key"@, "warning"@, "API Key 未配置"@)
        },
        if base_url.len() > 0 {
            ("Base URL"@, "ok"@, "Base URL: "@ + base_url)
        } else {
            ("Base URL"@, "failed"@, "Base URL 未配置"@)
        },
        if model.len() > 0 && model != model_placeholder() {
            ("模型名称"@, "ok"@, "模型: "@ + model)
        } else {
            ("模型名称"@, "failed"@, "模型名称未配置"@)
        },
    ]
}

/// The overall status: `ok` when every check is ok, `failed` when one failed, else
/// `warning`.
pub open spec fn diagnosis_status(checks: Seq<(Seq<char>, Seq<char>, Seq<char>)>) -> Seq<char> {
    if forall|i: int| 0 <= i < checks.len() ==> (#[trigger] checks[i]).1 == "ok"@ {
        "ok"@
    } else if exists|i: int| 0 <= i < checks.len() && (#[trigger] checks[i]).1 == "failed"@ {
        "failed"@
    } else {
        "warning"@
    }
}

/// Diagnoses a profile from whether it has a key, its base URL and its model name.
pub fn diagnose_profile(has_api_key: bool, base_url: &str, model: &str) -> (r: ModelDiagnosis)
    ensures
        r.checks@.map_values(|c: DiagnosisCheck| check_view(c)) == diagnosis_checks(has_api_key, base_url@, model@),
        r.status@ == diagnosis_status(diagnosis_checks(has_api_key, base_url@, model@)),
        r.recommended_thinking_mode is None,
{
    proof {
        reveal_strlit("ok");
        reveal_strlit("warning");
        reveal_strlit("failed");
    }
    let mut checks: Vec<DiagnosisCheck> = Vec::new();
    let key_ok = has_api_key;
    if has_api_key {
        checks.push(DiagnosisCheck {
            name: String::from_str("API Key"),
            status: String::from_str("ok"),
            message: String::from_str("API Key 已配置"),
        });
    } else {
        checks.push(DiagnosisCheck {
            name: String::from_str("API Key"),
            status: String::from_str("warning"),
            message: String::from_str("API Key 未配置"),
        });
    }
    let url_ok = !base_url.is_empty();
    if url_ok {
        let mut m = String::from_str("Base URL: ");
        m.append(base_url);
        checks.push(DiagnosisCheck {
            name: String::from_str("Base URL"),
            status: String::from_str("ok"),
            message: m,
        });
    } else {
        checks.push(DiagnosisCheck {
            name: String::from_str("Base URL"),
            status: String::from_str("failed"),
            message: String::from_str("Base URL 未配置"),
        });
    }
    let model_ok = !model.is_empty() && String::from_str(model) != String::from_str("请填写模型名");
    if model_ok {
        let mut m = String::from_str("模型: ");
        m.append(model);
        checks.push(DiagnosisCheck {
            name: String::from_str("模型名称"),
            status: String::from_str("ok"),
            message: m,
        });
    } else {
        checks.push(DiagnosisCheck {
            name: String::from_str("模型名称"),
            status: String::from_str("failed"),
            message: String::from_str("模型名称未配置"),
        });
    }
    let ghost cs = diagnosis_checks(has_api_key, base_url@, model@);
    assert(checks@.map_values(|c: DiagnosisCheck| check_view(c)) =~= cs);
    let status = if key_ok && url_ok && model_ok {
        assert(forall|i: int| 0 <= i < cs.len() ==> (#[trigger] cs[i]).1 == "ok"@);
        String::from_str("ok")
    } else if !url_ok || !model_ok {
        proof {
            if !url_ok {
                assert(cs[1].1 == "failed"@);
            } else {
                assert(cs[2].1 == "failed"@);
            }
            assert(cs[0].1 != "ok"@ || cs[1].1 != "ok"@ || cs[2].1 != "ok"@);
        }
        String::from_str("failed")
    } else {
        proof {
            assert(cs[0].1 == "warning"@);
            assert(!(forall|i: int| 0 <= i < cs.len() ==> (#[trigger] cs[i]).1 == "ok"@));
            assert(forall|i: int| 0 <= i < cs.len() ==> (#[trigger] cs[i]).1 != "failed"@) by {
                assert(cs[0].1 == "warning"@);
                assert(cs[1].1 == "ok"@);
                assert(cs[2].1 == "ok"@);
            }
        }
        String::from_str("warning")
    };
    ModelDiagnosis { status, recommended_thinking_mode: None, checks }
}

} // verus!

verus! {

/// A count saved in its decimal form reads back as the same count.
pub proof fn law_saved_setting_reads_back(n: i64, default: i64)
    ensures
        i64_setting(Some(crate::numfmt::dec_int(n as int)), default) == n,
{
    crate::numfmt::law_dec_parse_round_trip(n as int);
}

} // verus!
