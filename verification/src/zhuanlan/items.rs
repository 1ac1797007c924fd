//! The elements an article is made of, and their markup.
use crate::text::{decimal_spec, push_decimal, trim_leading, without_leading};
use vstd::prelude::*;
use vstd::string::*;

verus! {

/// One element of an article.
#[derive(Debug, Clone, PartialEq, Eq)]
pub enum Element {
    /// An empty paragraph.
    Spacer,
    /// A picture.
    Figure {
        /// The address of the picture on the content network.
        src: String,
        width: usize,
        height: usize,
        /// The size of the picture in bytes.
        data_size: usize,
        /// The caption; none where it is empty.
        caption: String,
    },
    /// A picture without dimensions, such as a dividing line.
    SimpleFigure { src: String, class: String },
    /// A paragraph of text.
    Text {
        /// Whether the paragraph is centred.
        center: bool,
        /// Whether the text is set in bold.
        strong: bool,
        /// The classes of the text's span.
        classes: Vec<String>,
        text: String,
    },
    /// A quotation.
    BlockQuote { text: String },
    /// A card that links to one or two videos of the site.
    VideoLink {
        /// The address of the cover.
        cover: String,
        width: u32,
        height: u32,
        data_size: usize,
        aids: Vec<String>,
    },
    /// Markup that is taken as it is.
    Raw(String),
}

/// What an [`Element`] holds.
pub enum ElementView {
    Spacer,
    Figure { src: Seq<char>, width: nat, height: nat, data_size: nat, caption: Seq<char> },
    SimpleFigure { src: Seq<char>, class: Seq<char> },
    Text { center: bool, strong: bool, classes: Seq<Seq<char>>, text: Seq<char> },
    BlockQuote { text: Seq<char> },
    VideoLink { cover: Seq<char>, width: nat, height: nat, data_size: nat, aids: Seq<Seq<char>> },
    Raw(Seq<char>),
}

impl View for Element {
    type V = ElementView;

    open spec fn view(&self) -> ElementView {
        match *self {
            Element::Spacer => ElementView::Spacer,
            Element::Figure { src, width, height, data_size, caption } => ElementView::Figure {
                src: src@,
                width: width as nat,
                height: height as nat,
                data_size: data_size as nat,
                caption: caption@,
            },
            Element::SimpleFigure { src, class } => ElementView::SimpleFigure {
                src: src@,
                class: class@,
            },
            Element::Text { center, strong, classes, text } => ElementView::Text {
                center,
                strong,
                classes: texts_of(classes@),
                text: text@,
            },
            Element::BlockQuote { text } => ElementView::BlockQuote { text: text@ },
            Element::VideoLink { cover, width, height, data_size, aids } => ElementView::VideoLink {
                cover: cover@,
                width: width as nat,
                height: height as nat,
                data_size: data_size as nat,
                aids: texts_of(aids@),
            },
            Element::Raw(s) => ElementView::Raw(s@),
        }
    }
}

/// What a list of elements holds.
pub open spec fn element_views(elements: Seq<Element>) -> Seq<ElementView> {
    elements.map_values(|e: Element| e@)
}

/// The texts of `parts` with `sep` between each two neighbours.
pub open spec fn joined(parts: Seq<Seq<char>>, sep: Seq<char>) -> Seq<char>
    decreases parts.len(),
{
    if parts.len() == 0 {
        Seq::empty()
    } else if parts.len() == 1 {
        parts[0]
    } else {
        joined(parts.drop_last(), sep) + sep + parts.last()
    }
}

/// The texts that a sequence of strings holds.
pub open spec fn texts_of(v: Seq<String>) -> Seq<Seq<char>> {
    v.map_values(|s: String| s@)
}

/// Appends the strings of `parts` to `out`, with `sep` between each two
/// neighbours.
pub fn push_joined(out: &mut String, parts: &Vec<String>, sep: &str)
    ensures
        final(out)@ == old(out)@ + joined(texts_of(parts@), sep@),
{
    let ghost before = out@;
    let ghost all = texts_of(parts@);
    let mut i: usize = 0;
    while i < parts.len()
        invariant
            i <= parts.len(),
            all == texts_of(parts@),
            out@ == before + joined(all.take(i as int), sep@),
        decreases parts.len() - i,
    {
        proof {
            assert(all.take(i as int + 1).drop_last() =~= all.take(i as int));
            assert(all.take(i as int + 1).last() == parts@[i as int]@);
        }
        let ghost sofar = out@;
        if i != 0 {
            out.append(sep);
        }
        out.append(parts[i].as_str());
        proof {
            let next = all.take(i as int + 1);
            if i == 0 {
                assert(joined(all.take(0), sep@) =~= Seq::<char>::empty());
                assert(out@ =~= before + joined(next, sep@));
            } else {
                assert(out@ =~= before + joined(next, sep@));
            }
        }
        i += 1;
    }
    proof {
        assert(all.take(all.len() as int) =~= all);
    }
}

/// The opening tag of a figure.
pub open spec fn figure_open() -> Seq<char> {
    "<figure class=\"img-box\" contenteditable=\"false\">"@
}

/// An address without the scheme in front of it, so that the page's own
/// scheme applies.
pub open spec fn scheme_relative(src: Seq<char>) -> Seq<char> {
    without_leading(src, "https:"@)
}

/// The caption of a figure; empty where there is no caption.
pub open spec fn caption_markup(caption: Seq<char>) -> Seq<char> {
    if caption.len() == 0 {
        ""@
    } else {
        "<figcaption class=\"caption\" contenteditable=\"\">"@ + caption + "</figcaption>"@
    }
}

/// The class of a video card: `nomal` for a single video, `column` for
/// more or none.
pub open spec fn video_card_class(aids: nat) -> Seq<char> {
    if aids == 1 {
        "nomal"@
    } else {
        "column"@
    }
}

/// The markup of an element.
pub open spec fn markup(e: Element) -> Seq<char> {
    match e {
        Element::Spacer => "<p><br></p>"@,
        Element::Figure { src, width, height, data_size, caption } => figure_open() + "<img src=\""@
            + scheme_relative(src@) + "\" width=\""@ + decimal_spec(width as nat) + "\" height=\""@
            + decimal_spec(height as nat) + "\" data-size=\""@ + decimal_spec(data_size as nat)
            + "\">"@ + caption_markup(caption@) + "</figure>"@,
        Element::SimpleFigure { src, class } => figure_open() + "<img src=\""@ + scheme_relative(
            src@,
        ) + "\" class=\""@ + class@ + "\">"@ + "</figure>"@,
        Element::Text { center, strong, classes, text } => (if center {
            "<p style=\"text-align: center;\">"@
        } else {
            "<p>"@
        }) + (if strong {
            "<strong>"@
        } else {
            ""@
        }) + "<span class=\""@ + joined(texts_of(classes@), " "@) + "\">"@ + text@ + "</span>"@ + (
        if strong {
            "</strong>"@
        } else {
            ""@
        }) + "</p>"@,
        Element::BlockQuote { text } => "<blockquote><p>"@ + text@ + "</p></blockquote>"@,
        Element::VideoLink { cover, width, height, data_size, aids } => figure_open()
            + "<img src=\""@ + scheme_relative(cover@) + "\" width=\""@ + decimal_spec(width as nat)
            + "\" height=\""@ + decimal_spec(height as nat) + "\" data-size=\""@ + decimal_spec(
            data_size as nat,
        ) + "\" aid=\""@ + joined(texts_of(aids@), ","@) + "\" class=\"video-card "@
            + video_card_class(aids@.len()) + "\" type=\""@ + video_card_class(aids@.len()) + "\">"@
            + "</figure>"@,
        Element::Raw(s) => s@,
    }
}

impl Element {
    /// An empty paragraph.
    pub fn spacer() -> (e: Element)
        ensures
            e == Element::Spacer,
    {
        Element::Spacer
    }

    /// A quotation of `s`.
    pub fn block_quote(s: String) -> (e: Element)
        ensures
            e == (Element::BlockQuote { text: s }),
    {
        Element::BlockQuote { text: s }
    }

    /// A picture with its dimensions, its size in bytes and a caption.
    pub fn figure(src: String, width: usize, height: usize, data_size: usize, caption: String) -> (e:
        Element)
        ensures
            e == (Element::Figure { src, width, height, data_size, caption }),
    {
        Element::Figure { src, width, height, data_size, caption }
    }

    /// A picture without dimensions.
    pub fn simple_figure(src: String, class: String) -> (e: Element)
        ensures
            e == (Element::SimpleFigure { src, class }),
    {
        Element::SimpleFigure { src, class }
    }

    /// Markup that is taken as it is.
    pub fn raw(s: String) -> (e: Element)
        ensures
            e == Element::Raw(s),
    {
        Element::Raw(s)
    }

    /// The markup of this element.
    pub fn to_string(&self) -> (s: String)
        ensures
            s@ == markup(*self),
    {
        match self {
            Element::Spacer => String::from_str("<p><br></p>"),
            Element::Figure { src, width, height, data_size, caption } => {
                let caption = caption_text(caption.as_str());
                let mut out = String::from_str("<figure class=\"img-box\" contenteditable=\"false\">");
                out.append("<img src=\"");
                out.append(trim_leading(src.as_str(), "https:"));
                out.append("\" width=\"");
                push_decimal(&mut out, *width as u64);
                out.append("\" height=\"");
                push_decimal(&mut out, *height as u64);
                out.append("\" data-size=\"");
                push_decimal(&mut out, *data_size as u64);
                out.append("\">");
                out.append(caption.as_str());
                out.append("</figure>");
                out
            },
            Element::SimpleFigure { src, class } => {
                let mut out = String::from_str("<figure class=\"img-box\" contenteditable=\"false\">");
                out.append("<img src=\"");
                out.append(trim_leading(src.as_str(), "https:"));
                out.append("\" class=\"");
                out.append(class.as_str());
                out.append("\">");
                out.append("</figure>");
                out
            },
            Element::Text { center, strong, classes, text } => {
                let paragraph: &str = if *center {
                    "<p style=\"text-align: center;\">"
                } else {
                    "<p>"
                };
                let bold: &str = if *strong {
                    "<strong>"
                } else {
                    ""
                };
                let bold_end: &str = if *strong {
                    "</strong>"
                } else {
                    ""
                };
                let mut out = String::from_str(paragraph);
                out.append(bold);
                out.append("<span class=\"");
                push_joined(&mut out, classes, " ");
                out.append("\">");
                out.append(text.as_str());
                out.append("</span>");
                out.append(bold_end);
                out.append("</p>");
                out
            },
            Element::BlockQuote { text } => {
                let mut out = String::from_str("<blockquote><p>");
                out.append(text.as_str());
                out.append("</p></blockquote>");
                out
            },
            Element::VideoLink { cover, width, height, data_size, aids } => {
                let class: &str = if aids.len() == 1 {
                    "nomal"
                } else {
                    "column"
                };
                let mut out = String::from_str("<figure class=\"img-box\" contenteditable=\"false\">");
                out.append("<img src=\"");
                out.append(trim_leading(cover.as_str(), "https:"));
                out.append("\" width=\"");
                push_decimal(&mut out, *width as u64);
                out.append("\" height=\"");
                push_decimal(&mut out, *height as u64);
                out.append("\" data-size=\"");
                push_decimal(&mut out, *data_size as u64);
                out.append("\" aid=\"");
                push_joined(&mut out, aids, ",");
                out.append("\" class=\"video-card ");
                out.append(class);
                out.append("\" type=\"");
                out.append(class);
                out.append("\">");
                out.append("</figure>");
                out
            },
            Element::Raw(s) => s.clone(),
        }
    }

    /// Appends the markup of this element to `out`.
    pub fn push_markup(&self, out: &mut String)
        ensures
            final(out)@ == old(out)@ + markup(*self),
    {
        let text = self.to_string();
        out.append(text.as_str());
    }
}

/// The caption of a figure as markup; empty where there is no caption.
pub fn caption_text(caption: &str) -> (s: String)
    ensures
        s@ == caption_markup(caption@),
{
    if caption.unicode_len() == 0 {
        String::from_str("")
    } else {
        let mut out = String::from_str("<figcaption class=\"caption\" contenteditable=\"\">");
        out.append(caption);
        out.append("</figcaption>");
        out
    }
}

/// The markup of the elements, one after the other.
pub open spec fn markup_of_all(elements: Seq<Element>) -> Seq<char>
    decreases elements.len(),
{
    if elements.len() == 0 {
        Seq::empty()
    } else {
        markup_of_all(elements.drop_last()) + markup(elements.last())
    }
}

} // verus!
