//! What drawing the interface decides: the status line's text and the state
//! that laying out the history and the input area records.

use crate::app::{thinking_text, App, Area};
use vstd::prelude::*;

verus! {

/// The text of the status line: the status if one is set, else
/// "Thinking..." while a reply is awaited, else nothing.
pub open spec fn status_line(app: &App) -> Seq<char> {
    match app.status {
        Some(s) => s@,
        None => if app.is_generating {
            thinking_text()
        } else {
            Seq::empty()
        },
    }
}

/// The text that the status line shows.
pub fn status_text(app: &App) -> (res: String)
    ensures
        res@ == status_line(app),
{
    proof {
        reveal_strlit("Thinking...");
    }
    match &app.status {
        Some(s) => s.clone(),
        None => if app.is_generating {
            String::from_str("Thinking...")
        } else {
            String::new()
        },
    }
}

/// Records where the history is drawn, brings the transcript up to date for
/// its width, brings the scroll offset back within the transcript, and
/// returns the offset to draw at.
pub fn prepare_message_history(app: &mut App, area: Area) -> (offset: u16)
    ensures
        old(app).wf() ==> final(app).wf(),
        final(app).message_history_area == Some(area),
        final(app).cached_width == area.width,
        final(app).cached_msg_count == old(app).messages@.len(),
        old(app).wf() ==> crate::app::line_views(final(app).cached_lines@) == old(
            app,
        ).transcript_at(area.width),
        !(old(app).cached_width == area.width && old(app).cached_msg_count
            == old(app).messages@.len()) ==> crate::app::line_views(final(app).cached_lines@)
            == old(app).transcript_at(area.width),
        old(app).cached_width == area.width && old(app).cached_msg_count
            == old(app).messages@.len() ==> final(app).cached_lines == old(app).cached_lines,
        offset == final(app).scroll_offset,
        offset == if old(app).scroll_offset <= final(app).cached_height().saturating_sub(area.height) {
            old(app).scroll_offset
        } else {
            final(app).cached_height().saturating_sub(area.height)
        },
        final(app).messages == old(app).messages,
        final(app).exit == old(app).exit,
        final(app).is_generating == old(app).is_generating,
        final(app).status == old(app).status,
        final(app).model == old(app).model,
        final(app).selected_widget == old(app).selected_widget,
        final(app).text_area_area == old(app).text_area_area,
{
    app.message_history_area = Some(area);
    app.update_cache(area.width);
    app.clamp_scroll();
    app.scroll_offset
}

/// Records where the input area is drawn, so that clicks can find it.
pub fn record_text_area(app: &mut App, area: Area)
    ensures
        *final(app) == (App { text_area_area: Some(area), ..*old(app) }),
{
    app.text_area_area = Some(area);
}

} // verus!
