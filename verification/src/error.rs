//! What can go wrong, in the words shown to the operator.
use vstd::prelude::*;
use crate::text;

verus! {

/// An error of the corpus library.
#[derive(Debug, PartialEq, Eq)]
pub enum Error {
    /// Filesystem failure.
    Io(String),
    /// JSON (de)serialization failure.
    Json(String),
    /// YAML (de)serialization failure.
    Yaml(String),
    /// TOML (de)serialization failure.
    Toml(String),
    /// A store layout violation: an invalid slug, a missing project, a
    /// refused document.
    Store(String),
    /// A plugin manifest is missing or malformed: its path and why.
    Manifest(String, String),
    /// A plugin returned an error or violated the protocol.
    Plugin { plugin: String, message: String },
    /// The plugin process died or produced no reply.
    PluginClosed(String),
}

/// What an error holds.
#[verifier::ext_equal]
pub enum ErrorView {
    Io(Seq<char>),
    Json(Seq<char>),
    Yaml(Seq<char>),
    Toml(Seq<char>),
    Store(Seq<char>),
    Manifest(Seq<char>, Seq<char>),
    Plugin { plugin: Seq<char>, message: Seq<char> },
    PluginClosed(Seq<char>),
}

impl View for Error {
    type V = ErrorView;

    open spec fn view(&self) -> ErrorView {
        match *self {
            Error::Io(m) => ErrorView::Io(m@),
            Error::Json(m) => ErrorView::Json(m@),
            Error::Yaml(m) => ErrorView::Yaml(m@),
            Error::Toml(m) => ErrorView::Toml(m@),
            Error::Store(m) => ErrorView::Store(m@),
            Error::Manifest(p, m) => ErrorView::Manifest(p@, m@),
            Error::Plugin { plugin, message } => ErrorView::Plugin {
                plugin: plugin@,
                message: message@,
            },
            Error::PluginClosed(p) => ErrorView::PluginClosed(p@),
        }
    }
}

/// What a fallible operation came to: what it returned, or what its error
/// holds.
pub open spec fn outcome<T: View>(r: Result<T, Error>) -> Result<T::V, ErrorView> {
    match r {
        Ok(v) => Ok(v@),
        Err(e) => Err(e@),
    }
}

/// What a check came to.
pub open spec fn verdict(r: Result<(), Error>) -> Result<(), ErrorView> {
    match r {
        Ok(v) => Ok(()),
        Err(e) => Err(e@),
    }
}

/// The line that an error is shown as.
pub open spec fn shown(e: ErrorView) -> Seq<char> {
    match e {
        ErrorView::Io(m) => "io error: "@ + m,
        ErrorView::Json(m) => "json error: "@ + m,
        ErrorView::Yaml(m) => "yaml error: "@ + m,
        ErrorView::Toml(m) => "toml error: "@ + m,
        ErrorView::Store(m) => "store error: "@ + m,
        ErrorView::Manifest(p, m) => "invalid plugin manifest at "@ + p + ": "@ + m,
        ErrorView::Plugin { plugin, message } => "plugin "@ + plugin + " error: "@ + message,
        ErrorView::PluginClosed(p) => "plugin "@ + p + " closed its protocol stream unexpectedly"@,
    }
}

impl Error {
    /// The line that the error is shown as.
    pub fn message(&self) -> (r: String)
        ensures
            r@ == shown(self@),
    {
        match self {
            Error::Io(m) => text::cat2("io error: ", m.as_str()),
            Error::Json(m) => text::cat2("json error: ", m.as_str()),
            Error::Yaml(m) => text::cat2("yaml error: ", m.as_str()),
            Error::Toml(m) => text::cat2("toml error: ", m.as_str()),
            Error::Store(m) => text::cat2("store error: ", m.as_str()),
            Error::Manifest(p, m) => text::cat4(
                "invalid plugin manifest at ",
                p.as_str(),
                ": ",
                m.as_str(),
            ),
            Error::Plugin { plugin, message } => text::cat4(
                "plugin ",
                plugin.as_str(),
                " error: ",
                message.as_str(),
            ),
            Error::PluginClosed(p) => text::cat3(
                "plugin ",
                p.as_str(),
                " closed its protocol stream unexpectedly",
            ),
        }
    }
}

/// What an error says is shown, and so is the plugin or the manifest that it
/// is about.
pub proof fn law_errors_are_shown(m: Seq<char>, p: Seq<char>)
    ensures
        m.is_suffix_of(shown(ErrorView::Io(m))),
        m.is_suffix_of(shown(ErrorView::Json(m))),
        m.is_suffix_of(shown(ErrorView::Yaml(m))),
        m.is_suffix_of(shown(ErrorView::Toml(m))),
        m.is_suffix_of(shown(ErrorView::Store(m))),
        m.is_suffix_of(shown(ErrorView::Manifest(p, m))),
        m.is_suffix_of(shown(ErrorView::Plugin { plugin: p, message: m })),
        text::contains(shown(ErrorView::Manifest(p, m)), p),
        text::contains(shown(ErrorView::Plugin { plugin: p, message: m }), p),
        text::contains(shown(ErrorView::PluginClosed(p)), p),
{
    let all = seq![
        shown(ErrorView::Io(m)),
        shown(ErrorView::Json(m)),
        shown(ErrorView::Yaml(m)),
        shown(ErrorView::Toml(m)),
        shown(ErrorView::Store(m)),
        shown(ErrorView::Manifest(p, m)),
        shown(ErrorView::Plugin { plugin: p, message: m }),
    ];
    assert forall|i: int| 0 <= i < all.len() implies m.is_suffix_of(#[trigger] all[i]) by {
        assert(m =~= all[i].subrange(all[i].len() - m.len(), all[i].len() as int));
    }
    assert(m.is_suffix_of(all[0]) && m.is_suffix_of(all[1]) && m.is_suffix_of(all[2]));
    assert(m.is_suffix_of(all[3]) && m.is_suffix_of(all[4]) && m.is_suffix_of(all[5]));
    assert(m.is_suffix_of(all[6]));
    text::lemma_contains_middle("invalid plugin manifest at "@, p, ": "@ + m);
    assert("invalid plugin manifest at "@ + p + (": "@ + m) =~= shown(ErrorView::Manifest(p, m)));
    text::lemma_contains_middle("plugin "@, p, " error: "@ + m);
    assert("plugin "@ + p + (" error: "@ + m) =~= shown(
        ErrorView::Plugin { plugin: p, message: m },
    ));
    text::lemma_contains_middle("plugin "@, p, " closed its protocol stream unexpectedly"@);
}

/// Different failures of one kind are shown differently.
pub proof fn law_shown_errors_differ(a: Seq<char>, b: Seq<char>)
    requires
        a != b,
    ensures
        shown(ErrorView::Store(a)) != shown(ErrorView::Store(b)),
        shown(ErrorView::Io(a)) != shown(ErrorView::Io(b)),
        shown(ErrorView::PluginClosed(a)) != shown(ErrorView::PluginClosed(b)),
{
    let none = Seq::<char>::empty();
    text::lemma_middles_differ("store error: "@, a, b, none);
    text::lemma_middles_differ("io error: "@, a, b, none);
    assert("store error: "@ + a + none =~= "store error: "@ + a);
    assert("store error: "@ + b + none =~= "store error: "@ + b);
    assert("io error: "@ + a + none =~= "io error: "@ + a);
    assert("io error: "@ + b + none =~= "io error: "@ + b);
    text::lemma_middles_differ("plugin "@, a, b, " closed its protocol stream unexpectedly"@);
}

} // verus!
