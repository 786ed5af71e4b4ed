use vstd::prelude::*;

use crate::gfx::Point;
use crate::input::{Event, EventView, Key, TerminalEvent};
use crate::output::painter::PainterState;
use crate::output::renderer::{Renderer, RendererState};
use crate::ui::navigation::{
    keypress_action, keypress_allowed, keypress_state, mouse_down_action, mouse_down_cursor,
    Navigation, NavigationAction, NavigationActionView, NavigationView,
};

verus! {

/// A call that the browser is asked to make.
pub enum BrowserCommand {
    Refresh,
    GoTo(String),
    GoBack,
    GoForward,
    Scroll { delta: isize },
    KeyPress { char: u8 },
    MouseUp { col: usize, row: usize },
    MouseDown { col: usize, row: usize },
    MouseMove { col: usize, row: usize },
}

/// The abstract value of a [`BrowserCommand`].
pub enum CommandView {
    Refresh,
    GoTo(Seq<char>),
    GoBack,
    GoForward,
    Scroll { delta: isize },
    KeyPress { char: u8 },
    MouseUp { col: usize, row: usize },
    MouseDown { col: usize, row: usize },
    MouseMove { col: usize, row: usize },
}

impl View for BrowserCommand {
    type V = CommandView;

    open spec fn view(&self) -> CommandView {
        match self {
            BrowserCommand::Refresh => CommandView::Refresh,
            BrowserCommand::GoTo(url) => CommandView::GoTo(url@),
            BrowserCommand::GoBack => CommandView::GoBack,
            BrowserCommand::GoForward => CommandView::GoForward,
            BrowserCommand::Scroll { delta } => CommandView::Scroll { delta: *delta },
            BrowserCommand::KeyPress { char } => CommandView::KeyPress { char: *char },
            BrowserCommand::MouseUp { col, row } => CommandView::MouseUp { col: *col, row: *row },
            BrowserCommand::MouseDown { col, row } => CommandView::MouseDown {
                col: *col,
                row: *row,
            },
            BrowserCommand::MouseMove { col, row } => CommandView::MouseMove {
                col: *col,
                row: *row,
            },
        }
    }
}

/// The abstract values of a list of commands.
pub open spec fn command_views(cs: Seq<BrowserCommand>) -> Seq<CommandView> {
    cs.map_values(|c: BrowserCommand| c@)
}

/// What the browser is asked for when the navigation bar answers `action`
/// to an event that, when passed on, becomes `forwarded`.
pub open spec fn action_commands(action: NavigationActionView, forwarded: CommandView) -> Seq<
    CommandView,
> {
    match action {
        NavigationActionView::Ignore => seq![],
        NavigationActionView::Forward => seq![forwarded],
        NavigationActionView::GoTo(url) => seq![CommandView::GoTo(url)],
        NavigationActionView::GoBack => seq![CommandView::GoBack],
        NavigationActionView::GoForward => seq![CommandView::GoForward],
        NavigationActionView::Refresh => seq![CommandView::Refresh],
    }
}

/// The browser call that the bar's answer stands for, if any.
pub open spec fn action_command(action: NavigationActionView) -> Option<CommandView> {
    match action {
        NavigationActionView::GoTo(url) => Some(CommandView::GoTo(url)),
        NavigationActionView::GoBack => Some(CommandView::GoBack),
        NavigationActionView::GoForward => Some(CommandView::GoForward),
        NavigationActionView::Refresh => Some(CommandView::Refresh),
        _ => None,
    }
}

/// Turns the bar's answer into the browser call it stands for; the flag is
/// set when the event should be passed on to the page instead.
pub fn dispatch(action: NavigationAction) -> (r: (bool, Option<BrowserCommand>))
    ensures
        r.0 == (action@ is Forward),
        match r.1 {
            None => action_command(action@) is None,
            Some(c) => action_command(action@) == Some(c@),
        },
{
    match action {
        NavigationAction::Ignore => (false, None),
        NavigationAction::Forward => (true, None),
        NavigationAction::GoBack() => (false, Some(BrowserCommand::GoBack)),
        NavigationAction::GoForward() => (false, Some(BrowserCommand::GoForward)),
        NavigationAction::Refresh() => (false, Some(BrowserCommand::Refresh)),
        NavigationAction::GoTo(url) => (false, Some(BrowserCommand::GoTo(url))),
    }
}

/// The point a mouse event names, as the bar reads it.
pub open spec fn event_point(col: usize, row: usize) -> Point {
    Point { x: col as i32, y: row as i32 }
}

/// The inputs on which an event can be handled (see [`keypress_allowed`]).
pub open spec fn event_allowed(nav: NavigationView, event: EventView) -> bool {
    match event {
        EventView::KeyPress(key) => keypress_allowed(nav, key),
        _ => true,
    }
}

/// The navigation bar after an event.
pub open spec fn nav_after(nav: NavigationView, event: EventView) -> NavigationView {
    match event {
        EventView::KeyPress(key) => keypress_state(nav, key),
        EventView::MouseUp { row, col } => if event_point(col, row).y != 0 {
            NavigationView { cursor: None, ..nav }
        } else {
            nav
        },
        EventView::MouseDown { row, col } => NavigationView {
            cursor: mouse_down_cursor(nav, event_point(col, row)),
            ..nav
        },
        _ => nav,
    }
}

/// The browser calls an event asks for.
pub open spec fn event_commands(nav: NavigationView, event: EventView) -> Seq<CommandView> {
    match event {
        EventView::KeyPress(key) => action_commands(
            keypress_action(nav, key),
            CommandView::KeyPress { char: key.char },
        ),
        EventView::MouseUp { row, col } => action_commands(
            if event_point(col, row).y != 0 {
                NavigationActionView::Forward
            } else {
                NavigationActionView::Ignore
            },
            CommandView::MouseUp { col, row },
        ),
        EventView::MouseDown { row, col } => action_commands(
            mouse_down_action(event_point(col, row)),
            CommandView::MouseDown { col, row },
        ),
        EventView::MouseMove { row, col } => seq![CommandView::MouseMove { col, row }],
        EventView::Scroll(delta) => seq![CommandView::Scroll { delta }],
        _ => seq![],
    }
}

/// Appends the calls for the bar's answer `action` to `out`, passing the
/// event on as `forwarded` when the bar does not keep it.
fn emit(out: &mut Vec<BrowserCommand>, action: NavigationAction, forwarded: BrowserCommand)
    ensures
        command_views(final(out)@) == command_views(old(out)@) + action_commands(
            action@,
            forwarded@,
        ),
{
    let ghost before = out@;
    let ghost a = action@;
    let (pass, command) = dispatch(action);
    if pass {
        out.push(forwarded);
    } else {
        match command {
            Some(c) => out.push(c),
            None => {},
        }
    }
    assert(command_views(out@) =~= command_views(before) + action_commands(a, forwarded@));
}

/// Handles one input event: the navigation bar sees it first, and what it
/// does not keep goes to the page; a terminal that reports true color
/// support switches the renderer to it.
pub fn handle_event(nav: &mut Navigation, renderer: &mut Renderer, event: Event) -> (r: Vec<
    BrowserCommand,
>)
    requires
        event_allowed(old(nav)@, event@),
    ensures
        final(nav)@ == nav_after(old(nav)@, event@),
        command_views(r@) == event_commands(old(nav)@, event@),
        final(renderer)@ == if event@ is TrueColorSupported {
            RendererState {
                painter: PainterState { true_color: true, ..old(renderer)@.painter },
                ..old(renderer)@
            }
        } else {
            old(renderer)@
        },
{
    let mut out: Vec<BrowserCommand> = Vec::new();
    assert(command_views(out@) =~= seq![]);
    match event {
        Event::Exit => {},
        Event::Scroll { delta } => {
            out.push(BrowserCommand::Scroll { delta });
            assert(command_views(out@) =~= seq![CommandView::Scroll { delta }]);
        },
        Event::KeyPress { key } => {
            let action = nav.keypress(&key);
            emit(&mut out, action, BrowserCommand::KeyPress { char: key.char });
        },
        Event::MouseUp { row, col } => {
            let action = nav.mouse_up(Point::new(col as i32, row as i32));
            emit(&mut out, action, BrowserCommand::MouseUp { col, row });
        },
        Event::MouseDown { row, col } => {
            let action = nav.mouse_down(Point::new(col as i32, row as i32));
            emit(&mut out, action, BrowserCommand::MouseDown { col, row });
        },
        Event::MouseMove { row, col } => {
            let action = nav.mouse_move(Point::new(col as i32, row as i32));
            emit(&mut out, action, BrowserCommand::MouseMove { col, row });
        },
        Event::Terminal(TerminalEvent::Name(_)) => {},
        Event::Terminal(TerminalEvent::TrueColorSupported) => {
            renderer.enable_true_color();
        },
    }
    out
}

} // verus!
