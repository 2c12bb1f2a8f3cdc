use lin_ssg::config::Config;
use lin_ssg::function::{ArgError, InvokeError};
use lin_ssg::page::{trim_str, Metadata, RawPageParts, SplitError};
use lin_ssg::slugify::slugify_text;
use lin_ssg::to_html::{text_to_html, push_dec, ToHtmlCtx, ToHtmlError};
use lin_ssg::transc::{TranscArgs, TranscFn, TranscriptionType};

#[test]
fn split_takes_first_terminator_line() {
    let parts = RawPageParts::split("title = \"x\"\n+++\nbody text\n").unwrap();
    assert_eq!(parts.metadata, "title = \"x\"\n");
    assert_eq!(parts.content, "body text\n");
}

#[test]
fn split_trims_terminator_line() {
    let parts = RawPageParts::split("meta\n  +++  \r\nbody").unwrap();
    assert_eq!(parts.metadata, "meta\n");
    assert_eq!(parts.content, "body");
}

#[test]
fn split_without_terminator_fails() {
    assert_eq!(
        RawPageParts::split("no terminator here\njust text"),
        Err(SplitError::MissingMetadataTerminator)
    );
    assert_eq!(
        RawPageParts::split(""),
        Err(SplitError::MissingMetadataTerminator)
    );
}

#[test]
fn split_ignores_inline_plusses() {
    // `+++` must stand on a line of its own.
    let result = RawPageParts::split("a +++ b\n+++\nrest");
    let parts = result.unwrap();
    assert_eq!(parts.metadata, "a +++ b\n");
    assert_eq!(parts.content, "rest");
}

#[test]
fn trim_strips_unicode_whitespace() {
    assert_eq!(trim_str("  a b  "), "a b");
    assert_eq!(trim_str("\u{a0}x\u{3000}"), "x");
    assert_eq!(trim_str("   "), "");
}

#[test]
fn metadata_defaults_layout() {
    let m = Metadata::new("Title".to_string(), None);
    assert_eq!(m.layout, "default.html");
    assert_eq!(m.title, "Title");
    let m = Metadata::new("T".to_string(), Some("page.html".to_string()));
    assert_eq!(m.layout, "page.html");
    assert_eq!(Metadata::default_layout(), "default.html");
}

#[test]
fn slugify_keeps_letters_digits_underscores() {
    let mut buf = String::new();
    slugify_text("Hello World 42!", &mut buf).unwrap();
    assert_eq!(buf, "Hello-World-42-");
}

#[test]
fn slugify_skips_leading_non_letters() {
    let mut buf = String::new();
    slugify_text("123 abc_def", &mut buf).unwrap();
    assert_eq!(buf, "abc_def");
}

#[test]
fn list_depths_count_nesting() {
    let mut ctx = ToHtmlCtx::default();
    assert_eq!(ctx.enter_ord_list(), 0);
    assert_eq!(ctx.enter_ord_list(), 1);
    assert_eq!(ctx.ord_list_depth(), 2);
    ctx.leave_ord_list();
    assert_eq!(ctx.ord_list_depth(), 1);
    assert_eq!(ctx.enter_unord_list(), 0);
    assert_eq!(ctx.unord_list_depth(), 1);
    ctx.leave_unord_list();
    ctx.leave_unord_list();
    assert_eq!(ctx.unord_list_depth(), 0);
}

#[test]
fn sections_nest_and_slugs_stay_unique() {
    let mut ctx = ToHtmlCtx::default();
    let mut buf = String::new();
    let s1 = ctx.enter_section(1, "Intro".to_string(), &mut buf).unwrap();
    assert_eq!(s1, "intro");
    assert_eq!(buf, "");
    let s2 = ctx.enter_section(2, "Sub".to_string(), &mut buf).unwrap();
    assert_eq!(s2, "intro-sub");
    assert_eq!(ctx.section_depth(), 2);
    let s3 = ctx.enter_section(2, "Sub".to_string(), &mut buf).unwrap();
    assert_eq!(s3, "intro-sub-2");
    assert_eq!(buf, "</div>");
    ctx.leave_section(1, &mut buf).unwrap();
    assert_eq!(ctx.section_depth(), 0);
    assert_eq!(buf, "</div></div></div>");
}

#[test]
fn leave_section_at_depth_zero_still_closes_once() {
    let mut ctx = ToHtmlCtx::default();
    let mut buf = String::new();
    ctx.leave_section(0, &mut buf).unwrap();
    assert_eq!(buf, "</div>");
    assert_eq!(ctx.section_depth(), 0);
}

#[test]
fn leave_section_below_depth_is_a_no_op() {
    let mut ctx = ToHtmlCtx::default();
    let mut buf = String::new();
    ctx.leave_section(3, &mut buf).unwrap();
    assert_eq!(buf, "");
}

#[test]
fn decimal_rendering() {
    let mut out = String::new();
    push_dec(0, &mut out);
    push_dec(7, &mut out);
    push_dec(120345, &mut out);
    assert_eq!(out, "07120345");
}

#[test]
fn text_escapes_html() {
    let mut buf = String::new();
    text_to_html("a<b & c>'d\"/", &mut buf).unwrap();
    assert_eq!(buf, "a&lt;b &amp; c&gt;&#x27;d&quot;&#x2F;");
}

#[test]
fn text_keeps_template_blocks_raw() {
    let mut buf = String::new();
    text_to_html("x<y {{ f(a=\"<\") }} z&", &mut buf).unwrap();
    assert_eq!(buf, "x&lt;y {{ f(a=\"<\") }} z&amp;");
}

#[test]
fn text_block_close_inside_string_does_not_count() {
    let mut buf = String::new();
    text_to_html("{{ \"}}\" }}tail", &mut buf).unwrap();
    assert_eq!(buf, "{{ \"}}\" }}tail");
}

#[test]
fn text_unclosed_block_fails() {
    let mut buf = String::new();
    let err = text_to_html("ab{{ oops", &mut buf).unwrap_err();
    assert_eq!(err, ToHtmlError::UnclosedBlock("ab{{ oops".to_string()));
    assert_eq!(buf, "ab");
}

#[test]
fn config_defaults_and_builders() {
    let config = Config::default();
    assert_eq!(config.template_pattern(), "templates/**/*");
    assert_eq!(config.template_dir(), "templates");
    assert_eq!(config.page_dir(), "pages");
    assert_eq!(config.asset_dir(), "assets");
    assert_eq!(config.output_dir(), "public");
    let config = config
        .with_templates("tpl".to_string())
        .with_pages("p".to_string())
        .with_assets("a".to_string())
        .with_output("o".to_string());
    assert_eq!(config.template_pattern(), "tpl/**/*");
    assert_eq!(config.template_dir(), "tpl");
    assert_eq!(config.page_dir(), "p");
    assert_eq!(config.asset_dir(), "a");
    assert_eq!(config.output_dir(), "o");
}

#[test]
fn transcription_type_names() {
    assert_eq!(
        TranscriptionType::from_name("GraphemicRaw"),
        Some(TranscriptionType::GraphemicRaw)
    );
    assert_eq!(
        TranscriptionType::from_name("Phonetic"),
        Some(TranscriptionType::Phonetic)
    );
    assert_eq!(
        TranscriptionType::from_name("Morphophonemic"),
        Some(TranscriptionType::Morphophonemic)
    );
    assert_eq!(TranscriptionType::from_name("phonetic"), None);
}

#[test]
fn transcriptions_wrap_encoded_text() {
    let call = |ty, attested| {
        TranscFn
            .call(&TranscArgs {
                input: "h{e}y".to_string(),
                lang: None,
                ty,
                attested,
            })
            .unwrap()
    };
    assert_eq!(call(TranscriptionType::GraphemicRaw, true), "hɛy");
    assert_eq!(call(TranscriptionType::GraphemicRaw, false), "*hɛy");
    assert_eq!(call(TranscriptionType::Graphemic, false), "*⟨hɛy⟩");
    assert_eq!(call(TranscriptionType::Phonemic, true), "/hɛy/");
    assert_eq!(call(TranscriptionType::Phonetic, false), "*[hɛy]");
}

#[test]
fn morphophonemic_needs_slash_codes() {
    // The `{//}` delimiter names a code absent from the table, exactly
    // as in the source list this crate carries.
    let result = TranscFn.call(&TranscArgs {
        input: "x".to_string(),
        lang: None,
        ty: TranscriptionType::Morphophonemic,
        attested: true,
    });
    assert!(result.is_err());
}

#[test]
fn argument_errors_carry_their_names() {
    let missing = ArgError::MissingArgument("in".to_string());
    let mismatched = ArgError::MismatchedTypes {
        arg: "ty".to_string(),
        ty: "transc-type".to_string(),
    };
    assert_ne!(missing, mismatched);
    let invoke: InvokeError<SplitError> = InvokeError::Arg(missing.clone());
    assert!(matches!(invoke, InvokeError::Arg(_)));
    let exec: InvokeError<SplitError> = InvokeError::Execution(SplitError::MissingMetadataTerminator);
    assert!(matches!(exec, InvokeError::Execution(_)));
}
