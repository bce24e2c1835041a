//! The engine's error type.
use vstd::prelude::*;
use crate::text::concat;

verus! {

/// Everything that can go wrong in the engine, with a human-readable detail.
#[derive(Debug, Clone, PartialEq, Eq)]
pub enum NovaError {
    Config(String),
    Render(String),
    Ipc(String),
    Plugin(String),
    Widget(String),
    Css(String),
    /// An I/O failure (the detail is the system's message)
    Io(String),
    Watch(String),
    /// A YAML document that does not parse (the detail is the parser's message)
    Yaml(String),
    /// A JSON document that does not parse (the detail is the parser's message)
    Json(String),
    DBus(String),
    Xml(String),
}

/// The full message of an error: its category, then its detail.
pub open spec fn error_message(e: NovaError) -> Seq<char> {
    match e {
        NovaError::Config(d) => "Configuration error: "@ + d@,
        NovaError::Render(d) => "Render error: "@ + d@,
        NovaError::Ipc(d) => "IPC error: "@ + d@,
        NovaError::Plugin(d) => "Plugin error: "@ + d@,
        NovaError::Widget(d) => "Widget error: "@ + d@,
        NovaError::Css(d) => "CSS error: "@ + d@,
        NovaError::Io(d) => "IO error: "@ + d@,
        NovaError::Watch(d) => "File watch error: "@ + d@,
        NovaError::Yaml(d) => "YAML parse error: "@ + d@,
        NovaError::Json(d) => "JSON error: "@ + d@,
        NovaError::DBus(d) => "D-Bus error: "@ + d@,
        NovaError::Xml(d) => "XML parse error: "@ + d@,
    }
}

impl NovaError {
    /// The error's message, as it is shown to the user.
    pub fn message(&self) -> (m: String)
        ensures
            m@ == error_message(*self),
    {
        match self {
            NovaError::Config(d) => concat("Configuration error: ", d.as_str()),
            NovaError::Render(d) => concat("Render error: ", d.as_str()),
            NovaError::Ipc(d) => concat("IPC error: ", d.as_str()),
            NovaError::Plugin(d) => concat("Plugin error: ", d.as_str()),
            NovaError::Widget(d) => concat("Widget error: ", d.as_str()),
            NovaError::Css(d) => concat("CSS error: ", d.as_str()),
            NovaError::Io(d) => concat("IO error: ", d.as_str()),
            NovaError::Watch(d) => concat("File watch error: ", d.as_str()),
            NovaError::Yaml(d) => concat("YAML parse error: ", d.as_str()),
            NovaError::Json(d) => concat("JSON error: ", d.as_str()),
            NovaError::DBus(d) => concat("D-Bus error: ", d.as_str()),
            NovaError::Xml(d) => concat("XML parse error: ", d.as_str()),
        }
    }
}

} // verus!
