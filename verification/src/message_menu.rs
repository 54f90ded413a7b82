use vstd::prelude::*;
use vstd::string::StringSliceAdditionalSpecFns;
use vstd::utf8::*;

use crate::text::{quote_text, quoted_text, same_text};

verus! {

broadcast use {vstd::string::group_string_axioms, vstd::slice::group_slice_axioms};

/// What the message menu reads of a message.
pub struct Message {
    pub mtype: String,
    pub body: String,
    pub source: Option<String>,
}

/// Text selected in the label that the menu was opened on, with the
/// selection bounds the label reported.
pub struct SelectedText {
    pub text: String,
    pub start: i32,
    pub end: i32,
}

/// Which buttons of the menu are shown.
pub struct MenuVisibility {
    pub copy_selected_text: bool,
    pub open_with: bool,
    pub save_image_as: bool,
    pub copy_image: bool,
    pub copy_text: bool,
}

/// The menu of actions on one message.
pub struct MessageMenu {
    pub selected_text: Option<SelectedText>,
    pub msg: Message,
}

/// The text between byte offsets `start` and `end` of the UTF-8 encoding of
/// `s`, as `str::get` gives it: `None` unless both offsets lie within the
/// text, in order, on character boundaries.
pub open spec fn byte_range(s: Seq<char>, start: int, end: int) -> Option<Seq<char>> {
    let bytes = encode_utf8(s);
    if 0 <= start <= end <= bytes.len() && is_char_boundary(bytes, start) && is_char_boundary(
        bytes,
        end,
    ) {
        Some(decode_utf8(bytes.subrange(start, end)))
    } else {
        None
    }
}

/// The selection of a label: present where the label reports selection
/// bounds, has a text, and the bounds delimit a piece of that text.
pub open spec fn selection_of(bounds: Option<(i32, i32)>, text: Option<Seq<char>>) -> Option<
    (Seq<char>, i32, i32),
> {
    match bounds {
        Some((s, e)) => match text {
            Some(t) => match byte_range(t, s as int, e as int) {
                Some(piece) => Some((piece, s, e)),
                None => None,
            },
            None => None,
        },
        None => None,
    }
}

/// The text shown as the source of a message.
pub open spec fn source_text_of(source: Option<Seq<char>>) -> Seq<char> {
    match source {
        Some(s) => s,
        None => "This message has no source."@,
    }
}

/// The characters of an optional text.
pub open spec fn str_view(t: Option<&str>) -> Option<Seq<char>> {
    match t {
        Some(t) => Some(t@),
        None => None,
    }
}

/// The characters of an optional owned text.
pub open spec fn string_view(t: Option<String>) -> Option<Seq<char>> {
    match t {
        Some(t) => Some(t@),
        None => None,
    }
}

/// Whether a message type is that of an image.
pub open spec fn is_image_type(mtype: Seq<char>) -> bool {
    mtype == "m.image"@
}

proof fn lemma_boundary_in_prefix(bytes: Seq<u8>, start: int, end: int)
    requires
        valid_utf8(bytes),
        0 <= start <= end <= bytes.len(),
        is_char_boundary(bytes, start),
        is_char_boundary(bytes, end),
    ensures
        valid_utf8(bytes.subrange(0, end)),
        is_char_boundary(bytes.subrange(0, end), start),
{
    let head = bytes.subrange(0, end);
    valid_utf8_split(bytes, end);
    if start == end {
        is_char_boundary_start_end_of_seq(head);
    } else {
        is_char_boundary_iff_not_is_continuation_byte(bytes, start);
        is_char_boundary_iff_not_is_continuation_byte(head, start);
        assert(head[start] == bytes[start]);
    }
}

/// The piece of `s` between byte offsets `start` and `end`, where those
/// offsets lie in order on character boundaries of `s`.
pub fn str_byte_range(s: &str, start: usize, end: usize) -> (r: Option<&str>)
    ensures
        r matches Some(piece) ==> byte_range(s@, start as int, end as int) == Some(piece@),
        r is None ==> byte_range(s@, start as int, end as int) is None,
{
    proof {
        encode_utf8_valid_utf8(s@);
    }
    if start <= end && end <= s.as_bytes().len() && s.is_char_boundary(start) && s.is_char_boundary(end) {
        let ghost bytes = s.spec_bytes();
        let (head, _) = s.split_at(end);
        proof {
            lemma_boundary_in_prefix(bytes, start as int, end as int);
            assert(head.spec_bytes() =~= bytes.subrange(0, end as int));
        }
        let (_, piece) = head.split_at(start);
        proof {
            let hb = head.spec_bytes();
            assert(hb.subrange(start as int, hb.len() as int) =~= bytes.subrange(
                start as int,
                end as int,
            ));
            encode_utf8_decode_utf8(piece@);
        }
        Some(piece)
    } else {
        None
    }
}

/// The selection of a label, from the selection bounds and the text that
/// the label reports.
pub fn get_selected_text(bounds: Option<(i32, i32)>, text: Option<&str>) -> (r: Option<
    SelectedText,
>)
    ensures
        match r {
            Some(sel) => selection_of(bounds, str_view(text)) == Some(
                (sel.text@, sel.start, sel.end),
            ),
            None => selection_of(bounds, str_view(text)) is None,
        },
{
    match bounds {
        Some((s, e)) => match text {
            Some(t) => {
                if s < 0 || e < 0 {
                    return None;
                }
                match str_byte_range(t, s as usize, e as usize) {
                    Some(piece) => Some(SelectedText { text: piece.to_owned(), start: s, end: e }),
                    None => None,
                }
            },
            None => None,
        },
        None => None,
    }
}

impl MessageMenu {
    /// The menu for `msg`, opened with `selected_text` selected.
    pub fn new_message_menu(msg: Message, selected_text: Option<SelectedText>) -> (r: MessageMenu)
        ensures
            r.msg == msg,
            r.selected_text == selected_text,
    {
        MessageMenu { selected_text, msg }
    }

    /// Which buttons the menu shows: copying the selection only where there
    /// is one; opening, saving and copying the image only for an image;
    /// copying the text only for what is not an image.
    pub fn menu_visibility(&self) -> (r: MenuVisibility)
        ensures
            r.copy_selected_text == self.selected_text is Some,
            r.open_with == is_image_type(self.msg.mtype@),
            r.save_image_as == is_image_type(self.msg.mtype@),
            r.copy_image == is_image_type(self.msg.mtype@),
            r.copy_text == !is_image_type(self.msg.mtype@),
            r.open_with == (self.msg.mtype@ == "m.image"@),
            r.save_image_as == (self.msg.mtype@ == "m.image"@),
            r.copy_image == (self.msg.mtype@ == "m.image"@),
            r.copy_text == (self.msg.mtype@ != "m.image"@),
    {
        let is_image = same_text(self.msg.mtype.as_str(), "m.image");
        MenuVisibility {
            copy_selected_text: self.selected_text.is_some(),
            open_with: is_image,
            save_image_as: is_image,
            copy_image: is_image,
            copy_text: !is_image,
        }
    }

    /// The text that a reply to the message starts with: its body quoted.
    pub fn quote(&self) -> (r: String)
        ensures
            r@ == quoted_text(self.msg.body@),
    {
        quote_text(self.msg.body.as_str())
    }

    /// The text shown in the source window: the message's source, or a
    /// note that it has none.
    pub fn source_text(&self) -> (r: String)
        ensures
            r@ == source_text_of(string_view(self.msg.source)),
    {
        match &self.msg.source {
            Some(s) => s.clone(),
            None => "This message has no source.".to_owned(),
        }
    }
}

/// Bounds from the start to the end of the encoded text select all of it.
pub proof fn lemma_whole_text_range(s: Seq<char>)
    ensures
        byte_range(s, 0, encode_utf8(s).len() as int) == Some(s),
{
    let bytes = encode_utf8(s);
    encode_utf8_valid_utf8(s);
    is_char_boundary_start_end_of_seq(bytes);
    assert(bytes.subrange(0, bytes.len() as int) =~= bytes);
    encode_utf8_decode_utf8(s);
}

/// Only the `m.image` message type counts as an image: every other type,
/// `m.video` and `m.file` among them, gets the text button and none of the
/// image buttons.
pub proof fn lemma_only_m_image_is_image(mtype: Seq<char>)
    ensures
        is_image_type(mtype) <==> mtype == "m.image"@,
        mtype != "m.image"@ ==> !is_image_type(mtype),
{
}

} // verus!
