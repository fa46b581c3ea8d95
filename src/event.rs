//! The text command language spoken by the browser: `kind[:arg]`.
use crate::text::{chars_of, find_char, lemma_split_once_at, split_once, substring};
use vstd::prelude::*;
use vstd::string::*;

verus! {

/// A command sent by the browser.
#[derive(Debug)]
pub enum AppEvent {
    Ping,
    Deploy(String),
    SearchServices(String),
    Navigate(String),
}

/// Why a payload is not a command.
#[derive(Debug, Clone, Copy, PartialEq, Eq, Structural)]
pub enum ParseEventError {
    UnknownKind,
    MissingArg,
    ExtraData,
}

/// A command, with its argument as characters.
pub enum EventView {
    Ping,
    Deploy(Seq<char>),
    SearchServices(Seq<char>),
    Navigate(Seq<char>),
}

impl View for AppEvent {
    type V = EventView;

    open spec fn view(&self) -> EventView {
        match self {
            AppEvent::Ping => EventView::Ping,
            AppEvent::Deploy(s) => EventView::Deploy(s@),
            AppEvent::SearchServices(s) => EventView::SearchServices(s@),
            AppEvent::Navigate(s) => EventView::Navigate(s@),
        }
    }
}

/// The view of a parse result.
pub open spec fn event_result_view(r: Result<AppEvent, ParseEventError>) -> Result<EventView, ParseEventError> {
    match r {
        Ok(e) => Ok(e@),
        Err(x) => Err(x),
    }
}

pub open spec fn arg_view(arg: Option<String>) -> Option<Seq<char>> {
    match arg {
        Some(a) => Some(a@),
        None => None,
    }
}

/// A kind that requires an argument, given it.
pub open spec fn with_arg(
    arg: Option<Seq<char>>,
    make: spec_fn(Seq<char>) -> EventView,
) -> Result<EventView, ParseEventError> {
    match arg {
        Some(a) => if a.len() > 0 {
            Ok(make(a))
        } else {
            Err(ParseEventError::MissingArg)
        },
        None => Err(ParseEventError::MissingArg),
    }
}

/// The command a payload denotes: split at the first colon into a kind and
/// an optional argument.
pub open spec fn parse_event_spec(s: Seq<char>) -> Result<EventView, ParseEventError> {
    let (kind, arg) = match split_once(s, ':') {
        Some((k, a)) => (k, Some(a)),
        None => (s, None),
    };
    if kind == "ping"@ {
        if arg is None {
            Ok(EventView::Ping)
        } else {
            Err(ParseEventError::ExtraData)
        }
    } else if kind == "deploy"@ {
        with_arg(arg, |a: Seq<char>| EventView::Deploy(a))
    } else if kind == "search_services"@ {
        with_arg(arg, |a: Seq<char>| EventView::SearchServices(a))
    } else if kind == "navigate"@ {
        with_arg(arg, |a: Seq<char>| EventView::Navigate(a))
    } else {
        Err(ParseEventError::UnknownKind)
    }
}

/// The canonical payload of a command.
pub open spec fn render_event_spec(e: EventView) -> Seq<char> {
    match e {
        EventView::Ping => "ping"@,
        EventView::Deploy(a) => "deploy:"@ + a,
        EventView::SearchServices(a) => "search_services:"@ + a,
        EventView::Navigate(a) => "navigate:"@ + a,
    }
}

/// A command that some payload denotes: every argument is non-empty.
pub open spec fn is_valid_event(e: EventView) -> bool {
    match e {
        EventView::Ping => true,
        EventView::Deploy(a) => a.len() > 0,
        EventView::SearchServices(a) => a.len() > 0,
        EventView::Navigate(a) => a.len() > 0,
    }
}

fn arg_event(arg: Option<String>, kind: u8) -> (r: Result<AppEvent, ParseEventError>)
    requires
        kind < 3,
    ensures
        kind == 0 ==> event_result_view(r) == with_arg(
            arg_view(arg),
            |a: Seq<char>| EventView::Deploy(a),
        ),
        kind == 1 ==> event_result_view(r) == with_arg(
            arg_view(arg),
            |a: Seq<char>| EventView::SearchServices(a),
        ),
        kind == 2 ==> event_result_view(r) == with_arg(
            arg_view(arg),
            |a: Seq<char>| EventView::Navigate(a),
        ),
{
    match arg {
        Some(a) => {
            if a.as_str().is_empty() {
                Err(ParseEventError::MissingArg)
            } else if kind == 0 {
                Ok(AppEvent::Deploy(a))
            } else if kind == 1 {
                Ok(AppEvent::SearchServices(a))
            } else {
                Ok(AppEvent::Navigate(a))
            }
        },
        None => Err(ParseEventError::MissingArg),
    }
}

/// Parses a text payload into a command.
pub fn parse_event(payload: &str) -> (r: Result<AppEvent, ParseEventError>)
    ensures
        event_result_view(r) == parse_event_spec(payload@),
{
    let chars = chars_of(payload);
    let n = chars.len();
    let (kind, arg) = match find_char(&chars, ':') {
        Some(i) => (substring(payload, 0, i), Some(substring(payload, i + 1, n))),
        None => (substring(payload, 0, n), None),
    };
    assert(payload@.subrange(0, n as int) =~= payload@);
    if kind == String::from_str("ping") {
        if arg.is_none() {
            Ok(AppEvent::Ping)
        } else {
            Err(ParseEventError::ExtraData)
        }
    } else if kind == String::from_str("deploy") {
        arg_event(arg, 0)
    } else if kind == String::from_str("search_services") {
        arg_event(arg, 1)
    } else if kind == String::from_str("navigate") {
        arg_event(arg, 2)
    } else {
        Err(ParseEventError::UnknownKind)
    }
}

/// Writes a command in its canonical form.
pub fn render_event(e: &AppEvent) -> (r: String)
    ensures
        r@ == render_event_spec(e@),
{
    match e {
        AppEvent::Ping => String::from_str("ping"),
        AppEvent::Deploy(a) => String::from_str("deploy:").concat(a.as_str()),
        AppEvent::SearchServices(a) => String::from_str("search_services:").concat(a.as_str()),
        AppEvent::Navigate(a) => String::from_str("navigate:").concat(a.as_str()),
    }
}

proof fn lemma_kind_round_trip(kind: Seq<char>, a: Seq<char>)
    requires
        forall|j: int| 0 <= j < kind.len() ==> kind[j] != ':',
    ensures
        split_once(kind + ":"@ + a, ':') == Some((kind, a)),
{
    reveal_strlit(":");
    assert(":"@ =~= seq![':']);
    lemma_split_once_at(kind, ':', a);
}

/// Parsing the canonical form of a command gives the command back.
pub proof fn lemma_event_round_trip(e: EventView)
    requires
        is_valid_event(e),
    ensures
        parse_event_spec(render_event_spec(e)) == Ok::<EventView, ParseEventError>(e),
{
    reveal_strlit("ping");
    reveal_strlit("deploy");
    reveal_strlit("search_services");
    reveal_strlit("navigate");
    reveal_strlit("deploy:");
    reveal_strlit("search_services:");
    reveal_strlit("navigate:");
    reveal_strlit(":");
    match e {
        EventView::Ping => {
            let s = "ping"@;
            assert forall|j: int| 0 <= j < s.len() implies s[j] != ':' by {}
            crate::text::lemma_first_index(s, ':', s.len() as int);
        },
        EventView::Deploy(a) => {
            assert("deploy:"@ + a =~= "deploy"@ + ":"@ + a);
            lemma_kind_round_trip("deploy"@, a);
        },
        EventView::SearchServices(a) => {
            assert("search_services:"@ + a =~= "search_services"@ + ":"@ + a);
            lemma_kind_round_trip("search_services"@, a);
            assert("search_services"@ != "ping"@);
            assert("search_services"@ != "deploy"@);
        },
        EventView::Navigate(a) => {
            assert("navigate:"@ + a =~= "navigate"@ + ":"@ + a);
            lemma_kind_round_trip("navigate"@, a);
            assert("navigate"@ != "ping"@);
            assert("navigate"@ != "deploy"@);
            assert("navigate"@ != "search_services"@);
        },
    }
}

} // verus!
