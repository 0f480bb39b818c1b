//! What a plugin advertises about itself, and the answers the SDK gives
//! for the hooks a plugin leaves at their defaults.
use vstd::prelude::*;

use crate::json::{entries_view, lemma_object_view, push_member, Json, JsonValue};

verus! {

/// The version of the sidecar contract this SDK speaks, advertised in
/// the `initialize` reply.
pub const SIDECAR_PROTOCOL_VERSION: u64 = 2;

/// The icon a plugin shows when it draws none of its own: an empty SVG,
/// which the host replaces with a placeholder.
pub const DEFAULT_ICON_SVG: &'static str = "<svg/>";

/// Capability flags a sidecar advertises in its `initialize` reply.
/// The host reads an absent object as "can do everything", which is why
/// `channels` has to be reported explicitly while this runtime has no
/// route for it.
#[derive(Debug, Clone, Copy, PartialEq, Eq, Structural)]
pub struct Capabilities {
    /// Can answer `discover`.
    pub discover: bool,
    /// Can answer `invoke`.
    pub invoke: bool,
    /// Can answer `invokeStream`.
    pub invoke_stream: bool,
    /// Can answer `openChannel`; the runtime has no such route, so the
    /// default says no.
    pub channels: bool,
}

impl Default for Capabilities {
    /// Yes to discover, invoke and invoke-stream; no to channels.
    fn default() -> (r: Self)
        ensures
            r == (Capabilities { discover: true, invoke: true, invoke_stream: true, channels: false }),
    {
        Capabilities { discover: true, invoke: true, invoke_stream: true, channels: false }
    }
}

/// The wire shape of the capability flags.
pub open spec fn capabilities_json(c: Capabilities) -> Json {
    Json::Object(
        seq![
            ("discover"@, Json::Bool(c.discover)),
            ("invoke"@, Json::Bool(c.invoke)),
            ("invokeStream"@, Json::Bool(c.invoke_stream)),
            ("channels"@, Json::Bool(c.channels)),
        ],
    )
}

impl Capabilities {
    /// The wire shape: `discover`, `invoke`, `invokeStream`, `channels`.
    pub fn to_json(&self) -> (r: JsonValue)
        ensures
            r@ == capabilities_json(*self),
    {
        let mut e: Vec<(String, JsonValue)> = Vec::new();
        assert(entries_view(e@) =~= Seq::<(Seq<char>, Json)>::empty());
        push_member(&mut e, "discover", JsonValue::Bool(self.discover));
        push_member(&mut e, "invoke", JsonValue::Bool(self.invoke));
        push_member(&mut e, "invokeStream", JsonValue::Bool(self.invoke_stream));
        push_member(&mut e, "channels", JsonValue::Bool(self.channels));
        proof {
            lemma_object_view(e);
            assert(entries_view(e@) =~= match capabilities_json(*self) {
                Json::Object(m) => m,
                _ => Seq::empty(),
            });
        }
        JsonValue::Object(e)
    }
}

/// The text before the plugin id in the frame a plugin without its own
/// streaming support emits.
pub open spec fn not_implemented_prefix() -> Seq<char> {
    "{\"status\":\"Error\",\"response\":\"invoke_stream not implemented by plugin '"@
}

/// The text after the plugin id in that frame.
pub open spec fn not_implemented_suffix() -> Seq<char> {
    "'\"}"@
}

/// The single frame a plugin that leaves `invoke_stream` at its default
/// emits, so the workbench fails fast instead of hanging: an error
/// status naming the plugin. The id is written as given.
pub fn not_implemented_frame(plugin_id: &str) -> (r: String)
    ensures
        r@ == not_implemented_prefix() + plugin_id@ + not_implemented_suffix(),
{
    let mut s = "{\"status\":\"Error\",\"response\":\"invoke_stream not implemented by plugin '".to_owned();
    s.append(plugin_id);
    s.append("'\"}");
    s
}

} // verus!
