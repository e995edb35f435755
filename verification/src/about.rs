//! The About window: what a click on it means.
use vstd::prelude::*;

verus! {

/// What a click in the About window asks for.
#[derive(Clone, Copy, Debug, PartialEq, Eq, Structural)]
pub enum AboutAction {
    OpenWebsite,
    OpenGithub,
    RequestUpdate,
    Close,
    Nothing,
}

/// The clickable regions: the author line, the repository line, the
/// update button and the close button.
pub open spec fn about_click_spec(x: int, y: int) -> AboutAction {
    if 34 <= x < 346 && 58 <= y < 94 {
        AboutAction::OpenWebsite
    } else if 34 <= x < 346 && 96 <= y < 132 {
        AboutAction::OpenGithub
    } else if 70 <= x < 310 && 184 <= y < 224 {
        AboutAction::RequestUpdate
    } else if 140 <= x < 240 && 244 <= y < 278 {
        AboutAction::Close
    } else {
        AboutAction::Nothing
    }
}

/// See `about_click_spec`.
pub fn about_click(x: i32, y: i32) -> (r: AboutAction)
    ensures
        r == about_click_spec(x as int, y as int),
{
    if 34 <= x && x < 346 && 58 <= y && y < 94 {
        AboutAction::OpenWebsite
    } else if 34 <= x && x < 346 && 96 <= y && y < 132 {
        AboutAction::OpenGithub
    } else if 70 <= x && x < 310 && 184 <= y && y < 224 {
        AboutAction::RequestUpdate
    } else if 140 <= x && x < 240 && 244 <= y && y < 278 {
        AboutAction::Close
    } else {
        AboutAction::Nothing
    }
}

/// The address a link click opens.
pub fn link_url(action: AboutAction) -> (r: Option<&'static str>)
    ensures
        action == AboutAction::OpenWebsite ==> r == Some("https://emadghasemi.ir"),
        action == AboutAction::OpenGithub ==> r == Some(
            "https://github.com/emadgh/windows-emojipicker",
        ),
        action != AboutAction::OpenWebsite && action != AboutAction::OpenGithub ==> r.is_none(),
{
    match action {
        AboutAction::OpenWebsite => Some("https://emadghasemi.ir"),
        AboutAction::OpenGithub => Some("https://github.com/emadgh/windows-emojipicker"),
        _ => None,
    }
}

} // verus!
