use mq::options::{
    ConversionOptions, InputFormat, ListStyle, Options, TitleSurroundStyle, UrlSurroundStyle,
};

#[test]
fn fresh_options_leave_every_field_unset() {
    let o = Options::new();
    assert!(o.input_format.is_none());
    assert!(o.list_style.is_none());
    assert!(o.link_title_style.is_none());
    assert!(o.link_url_style.is_none());
}

#[test]
fn fresh_conversion_options_switch_everything_off() {
    let c = ConversionOptions::new();
    assert!(!c.extract_scripts_as_code_blocks);
    assert!(!c.generate_front_matter);
    assert!(!c.use_title_as_h1);
}

#[test]
fn style_defaults() {
    assert_eq!(InputFormat::default(), InputFormat::Markdown);
    assert_eq!(ListStyle::default(), ListStyle::Dash);
    assert_eq!(TitleSurroundStyle::default(), TitleSurroundStyle::Double);
    assert_eq!(UrlSurroundStyle::default(), UrlSurroundStyle::Bare);
}
