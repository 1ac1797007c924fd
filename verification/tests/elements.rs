use asoul_weekly::zhuanlan::items::Element;
use asoul_weekly::zhuanlan::save_draft::Draft;

#[test]
fn test_spacer() {
    let spacer = Element::Spacer;
    assert_eq!(spacer.to_string(), "<p><br></p>");
}

#[test]
fn test_figure() {
    let f = Element::Figure {
        src: "https://example.com".to_string(),
        width: 1920,
        height: 1080,
        data_size: 114514,
        caption: "标题".to_string(),
    };
    assert_eq!(f.to_string(), r#"
        <figure class="img-box" contenteditable="false"><img src="//example.com" width="1920" height="1080" data-size="114514"><figcaption class="caption" contenteditable="">标题</figcaption></figure>
        "#.trim());

    let f = Element::Figure {
        src: "https://example.com".to_string(),
        width: 1920,
        height: 1080,
        data_size: 114514,
        caption: "".to_string(),
    };
    assert_eq!(f.to_string(), r#"
        <figure class="img-box" contenteditable="false"><img src="//example.com" width="1920" height="1080" data-size="114514"></figure>
        "#.trim());
}

#[test]
fn test_blockquote() {
    let b = Element::BlockQuote {
        text: "一个魂们大家好".to_string(),
    };
    assert_eq!(
        b.to_string(),
        "<blockquote><p>一个魂们大家好</p></blockquote>"
    );
}

#[test]
fn constructors_build_the_variants() {
    assert_eq!(Element::spacer(), Element::Spacer);
    assert_eq!(
        Element::block_quote("q".to_string()),
        Element::BlockQuote { text: "q".to_string() }
    );
    assert_eq!(
        Element::figure("s".to_string(), 1, 2, 3, "c".to_string()),
        Element::Figure {
            src: "s".to_string(),
            width: 1,
            height: 2,
            data_size: 3,
            caption: "c".to_string()
        }
    );
    assert_eq!(
        Element::simple_figure("s".to_string(), "k".to_string()),
        Element::SimpleFigure { src: "s".to_string(), class: "k".to_string() }
    );
    assert_eq!(Element::raw("<b>".to_string()), Element::Raw("<b>".to_string()));
}

#[test]
fn simple_figure_markup() {
    let f = Element::simple_figure(
        "https://i0.hdslb.com/line.png".to_string(),
        "cut-off-6".to_string(),
    );
    assert_eq!(
        f.to_string(),
        "<figure class=\"img-box\" contenteditable=\"false\"><img src=\"//i0.hdslb.com/line.png\" class=\"cut-off-6\"></figure>"
    );
}

#[test]
fn scheme_is_removed_as_often_as_it_leads() {
    let f = Element::simple_figure("https:https://x".to_string(), "c".to_string());
    assert_eq!(
        f.to_string(),
        "<figure class=\"img-box\" contenteditable=\"false\"><img src=\"//x\" class=\"c\"></figure>"
    );
    let g = Element::simple_figure("http://x/https:".to_string(), "c".to_string());
    assert_eq!(
        g.to_string(),
        "<figure class=\"img-box\" contenteditable=\"false\"><img src=\"http://x/https:\" class=\"c\"></figure>"
    );
}

#[test]
fn text_markup() {
    let plain = Element::Text {
        center: false,
        strong: false,
        classes: vec!["font-size-16".to_string()],
        text: "你好".to_string(),
    };
    assert_eq!(plain.to_string(), "<p><span class=\"font-size-16\">你好</span></p>");
    let loud = Element::Text {
        center: true,
        strong: true,
        classes: vec!["color-blue-02".to_string(), "font-size-20".to_string()],
        text: "音乐".to_string(),
    };
    assert_eq!(
        loud.to_string(),
        "<p style=\"text-align: center;\"><strong><span class=\"color-blue-02 font-size-20\">音乐</span></strong></p>"
    );
    let bare = Element::Text { center: false, strong: true, classes: vec![], text: "x".to_string() };
    assert_eq!(bare.to_string(), "<p><strong><span class=\"\">x</span></strong></p>");
}

#[test]
fn video_link_markup() {
    let one = Element::VideoLink {
        cover: "https://i0.hdslb.com/c.png".to_string(),
        width: 1320,
        height: 192,
        data_size: 61801,
        aids: vec!["170001".to_string()],
    };
    assert_eq!(
        one.to_string(),
        "<figure class=\"img-box\" contenteditable=\"false\"><img src=\"//i0.hdslb.com/c.png\" width=\"1320\" height=\"192\" data-size=\"61801\" aid=\"170001\" class=\"video-card nomal\" type=\"nomal\"></figure>"
    );
    let two = Element::VideoLink {
        cover: "https://i0.hdslb.com/c.png".to_string(),
        width: 1320,
        height: 192,
        data_size: 61801,
        aids: vec!["170001".to_string(), "2".to_string()],
    };
    assert_eq!(
        two.to_string(),
        "<figure class=\"img-box\" contenteditable=\"false\"><img src=\"//i0.hdslb.com/c.png\" width=\"1320\" height=\"192\" data-size=\"61801\" aid=\"170001,2\" class=\"video-card column\" type=\"column\"></figure>"
    );
}

#[test]
fn raw_markup_is_kept() {
    assert_eq!(Element::raw("<i>a</i>".to_string()).to_string(), "<i>a</i>");
}

#[test]
fn push_markup_appends() {
    let mut out = "x".to_string();
    Element::Spacer.push_markup(&mut out);
    assert_eq!(out, "x<p><br></p>");
}

#[test]
fn content_string_joins_all_elements() {
    let draft = Draft {
        title: "t".to_string(),
        banner_url: "".to_string(),
        content: vec![
            Element::spacer(),
            Element::block_quote("a".to_string()),
            Element::raw("<hr>".to_string()),
        ],
        summary: "s".to_string(),
        csrf: "c".to_string(),
    };
    assert_eq!(
        draft.content_string(),
        "<p><br></p><blockquote><p>a</p></blockquote><hr>"
    );
    let empty = Draft {
        title: "t".to_string(),
        banner_url: "".to_string(),
        content: vec![],
        summary: "s".to_string(),
        csrf: "c".to_string(),
    };
    assert_eq!(empty.content_string(), "");
}
