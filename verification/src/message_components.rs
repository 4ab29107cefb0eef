//! The parts of a line that shows a message, cut so that the line fits.

use vstd::prelude::*;
use vstd::string::StringSliceAdditionalSpecFns;
use crate::message::State;
use crate::truncate::{str_width, text_width, truncate_string, truncated};

verus! {

/// The parts of the line of a message: the state, the content, the
/// mailbox, the time, and what follows the time.
#[derive(Debug, PartialEq, Eq)]
pub struct MessageComponents {
    pub state: State,
    pub content: String,
    pub mailbox: String,
    pub time: String,
    pub appendix: String,
}

/// The parts of the line of a message as mathematical values.
pub struct ComponentsView {
    pub state: State,
    pub content: Seq<char>,
    pub mailbox: Seq<char>,
    pub time: Seq<char>,
    pub appendix: Seq<char>,
}

impl View for MessageComponents {
    type V = ComponentsView;

    open spec fn view(&self) -> ComponentsView {
        ComponentsView {
            state: self.state,
            content: self.content@,
            mailbox: self.mailbox@,
            time: self.time@,
            appendix: self.appendix@,
        }
    }
}

/// The number of bytes of a text.
pub open spec fn byte_len(s: Seq<char>) -> usize {
    vstd::utf8::encode_utf8(s).len() as usize
}

/// The length of the line: 8 for the state and what stands between the
/// parts, the columns of the content and of the mailbox, and the bytes of
/// the time and of what follows it.
pub open spec fn line_length(c: ComponentsView) -> int {
    8 + str_width(c.content) + str_width(c.mailbox) + byte_len(c.time) + byte_len(c.appendix)
}

/// The parts cut so that the line has at most `max_length` columns, as far
/// as that can be done. A line that fits stays. Else the mailbox is cut,
/// if that alone can do it and leaves the mailbox four columns; else the
/// content, on the same terms; else both are cut to half of the columns
/// that the other parts leave, and not below four.
pub open spec fn truncated_components(c: ComponentsView, max_length: usize) -> ComponentsView {
    let total = line_length(c);
    let without_mailbox = total - str_width(c.mailbox);
    let without_content = total - str_width(c.content);
    let others = total - str_width(c.content) - str_width(c.mailbox);
    if total <= max_length {
        c
    } else if without_mailbox + 4 <= max_length {
        ComponentsView {
            mailbox: truncated(c.mailbox, (max_length - without_mailbox) as usize).0,
            ..c
        }
    } else if without_content + 4 <= max_length {
        ComponentsView {
            content: truncated(c.content, (max_length - without_content) as usize).0,
            ..c
        }
    } else {
        let left: int = if max_length >= others {
            max_length - others
        } else {
            0
        };
        let each = if left / 2 >= 4 {
            (left / 2) as usize
        } else {
            4usize
        };
        ComponentsView {
            mailbox: truncated(c.mailbox, each).0,
            content: truncated(c.content, each).0,
            ..c
        }
    }
}

impl MessageComponents {
    /// Cuts the parts so that the line has at most `max_length` columns, as
    /// far as that can be done.
    pub fn truncate(self, max_length: usize) -> (r: MessageComponents)
        ensures
            r@ == truncated_components(self@, max_length),
    {
        let content_width = text_width(self.content.as_str()) as u128;
        let mailbox_width = text_width(self.mailbox.as_str()) as u128;
        let total: u128 = 8 + content_width + mailbox_width + self.time.as_str().len() as u128
            + self.appendix.as_str().len() as u128;
        let max = max_length as u128;
        if total <= max {
            // The line fits.
            return self;
        }
        // First try to cut the mailbox.
        let others = total - mailbox_width;
        if others + 4 <= max {
            let mailbox = truncate_string(self.mailbox.as_str(), (max - others) as usize).0;
            return MessageComponents {
                state: self.state,
                content: self.content,
                mailbox,
                time: self.time,
                appendix: self.appendix,
            };
        }
        // Next try to cut the content.
        let others = total - content_width;
        if others + 4 <= max {
            let content = truncate_string(self.content.as_str(), (max - others) as usize).0;
            return MessageComponents {
                state: self.state,
                content,
                mailbox: self.mailbox,
                time: self.time,
                appendix: self.appendix,
            };
        }
        // Lastly cut both.
        let others = total - content_width - mailbox_width;
        let left = if max >= others {
            max - others
        } else {
            0
        };
        let each = if left / 2 >= 4 {
            (left / 2) as usize
        } else {
            4
        };
        let mailbox = truncate_string(self.mailbox.as_str(), each).0;
        let content = truncate_string(self.content.as_str(), each).0;
        MessageComponents {
            state: self.state,
            content,
            mailbox,
            time: self.time,
            appendix: self.appendix,
        }
    }
}

} // verus!
