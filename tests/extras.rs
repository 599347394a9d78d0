use zkattend::assistant::{bitnet_models, default_model, get_providers, get_system_prompt, model_names};
use zkattend::info::{firmware_options, option_request, option_value, reply_text, serial_options};
use zkattend::text::{decimal, parse_u32, text_field};
use zkattend::tools::{check_tools, first_line_of};

#[test]
fn providers_listed_in_order() {
    let p = get_providers(Some(vec!["llama3.2".to_string()]), None);
    assert_eq!(p.len(), 3);
    assert_eq!(p[0].name, "ollama");
    assert!(p[0].available);
    assert_eq!(p[0].models, vec!["llama3.2".to_string()]);
    assert_eq!(p[1].name, "bitnet");
    assert!(!p[1].available);
    assert!(p[1].models.is_empty());
    assert_eq!(p[2].name, "openai");
    assert!(p[2].available);
    assert_eq!(p[2].models, vec!["gpt-4o", "gpt-4o-mini", "gpt-4-turbo", "gpt-3.5-turbo"]);
}

#[test]
fn system_prompt_text() {
    let s = get_system_prompt();
    assert!(s.starts_with("You are Alagappa AI"));
    assert!(s.ends_with("Use emojis sparingly for clarity."));
}

#[test]
fn default_models() {
    assert_eq!(default_model("openai"), "gpt-4o-mini");
    assert_eq!(default_model("bitnet"), "BitNet-b1.58-2B-4T");
    assert_eq!(default_model("ollama"), "llama3.2");
    assert_eq!(default_model("other"), "llama3.2");
}

#[test]
fn tools_status() {
    let t = check_tools(
        Some("LibreOffice 7.6".to_string()),
        Some("pandoc 3.1\r\nFeatures".to_string()),
        None,
        Some("ffmpeg version 6\nbuilt with gcc".to_string()),
    );
    assert_eq!(t.len(), 4);
    assert_eq!(t[0].name, "LibreOffice");
    assert_eq!(t[0].version, Some("LibreOffice 7.6".to_string()));
    assert_eq!(t[1].version, Some("pandoc 3.1".to_string()));
    assert!(!t[2].available);
    assert_eq!(t[2].version, None);
    assert_eq!(t[3].name, "FFmpeg");
    assert_eq!(t[3].version, Some("ffmpeg version 6".to_string()));
}

#[test]
fn first_lines() {
    assert_eq!(first_line_of(""), "");
    assert_eq!(first_line_of("one"), "one");
    assert_eq!(first_line_of("a\r"), "a\r");
    assert_eq!(first_line_of("a\r\nb"), "a");
    assert_eq!(first_line_of("\nb"), "");
}

#[test]
fn option_values() {
    assert_eq!(option_request(b"~DeviceName"), b"~DeviceName\0".to_vec());
    assert_eq!(option_value(b"~DeviceName=K40\0"), "K40");
    assert_eq!(option_value(b"Key=a=b\0junk"), "a=b");
    assert_eq!(option_value(b"novalue\0"), "novalue");
    assert_eq!(reply_text(b"Ver 6.60\0\0"), "Ver 6.60");
    assert_eq!(reply_text(&[0xFF, b'x']), "\u{FFFD}x");
}

#[test]
fn fallback_option_names() {
    assert_eq!(firmware_options(), vec!["~ZKFPVersion", "FWVersion", "~FWVersion", "ZKFPVersion"]);
    assert_eq!(serial_options(), vec!["~SerialNumber", "SerialNumber", "SN"]);
}

#[test]
fn decimal_text_and_parse() {
    assert_eq!(decimal(0), "0");
    assert_eq!(decimal(4294967295), "4294967295");
    assert_eq!(parse_u32("+17"), Some(17));
    assert_eq!(parse_u32("4294967295"), Some(4294967295));
    assert_eq!(parse_u32("4294967296"), None);
    assert_eq!(parse_u32(""), None);
    assert_eq!(parse_u32("+"), None);
    assert_eq!(parse_u32("12a"), None);
}

#[test]
fn text_fields_trim_padding() {
    assert_eq!(text_field(b"  Ann \0\0\0"), "Ann");
    assert_eq!(text_field(&[0, 0]), "");
    assert_eq!(text_field("Łukasz\0".as_bytes()), "Łukasz");
}

#[test]
fn model_listing_names() {
    let listing = "NAME            ID      SIZE\nllama3.2:latest abc 2.0 GB\r\n\n   mistral:7b x\nqwen";
    assert_eq!(model_names(listing), vec!["llama3.2:latest", "mistral:7b", "qwen"]);
    assert!(model_names("NAME ID SIZE").is_empty());
    assert!(model_names("").is_empty());
    assert!(model_names("NAME\n").is_empty());
}

#[test]
fn bitnet_default_model() {
    assert_eq!(bitnet_models(Vec::new()), vec!["BitNet-b1.58-2B-4T".to_string()]);
    assert_eq!(bitnet_models(vec!["m.gguf".to_string()]), vec!["m.gguf".to_string()]);
}
