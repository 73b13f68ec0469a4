//! Version probe: after liveness, `status` and `start` open one probe
//! connection and warn where the server's version is not the host's. `init`
//! never probes.

use vstd::prelude::*;

use crate::protocol::{Message, MessageModel, CURRENT_VERSION};
use crate::text;

verus! {

/// Seconds that each half of the probe may take: a server that accepts but
/// never answers within them is passed over silently.
pub const PROBE_TIMEOUT_SECS: u64 = 2;

/// The frame that opens the probe.
pub fn probe_message() -> (message: Message)
    ensures
        message@ == MessageModel::RequestVersion,
{
    Message::RequestVersion
}

/// The advice below each warning.
pub open spec fn advice() -> Seq<char> {
    "\nrun `ncap-ctl restart` to match them back at one version"@
}

/// What the probe has to say of a reply: a version that is not the host's,
/// or a server that will not report one. Anything else stays silent.
pub open spec fn skew(socket: Seq<char>, reply: Option<MessageModel>) -> Option<Seq<char>> {
    match reply {
        Some(MessageModel::ServerVersion(version)) => if version == CURRENT_VERSION@ {
            None
        } else {
            Some(
                "ncap-ctl: server on `"@ + socket + "` is running version "@ + version
                    + ", the host binaries are "@ + CURRENT_VERSION@ + advice(),
            )
        },
        Some(MessageModel::Error(_)) => Some(
            "ncap-ctl: server on `"@ + socket
                + "` will not report a version, the host binaries are "@ + CURRENT_VERSION@
                + advice(),
        ),
        _ => None,
    }
}

/// The skew warning for the reply of the server on `socket`; `None` for the
/// reply where there was none, or none that decodes. A warning never fails
/// the command.
pub fn skew_warning(socket: &str, reply: &Option<Message>) -> (r: Option<String>)
    ensures
        match skew(
            socket@,
            match reply {
                Some(message) => Some(message@),
                None => None,
            },
        ) {
            Some(warning) => r is Some && r->0@ == warning,
            None => r is None,
        },
{
    let mut out = "ncap-ctl: server on `".to_owned();
    out.append(socket);
    match reply {
        Some(Message::ServerVersion(msg)) => {
            if text::same(msg.version.as_str(), CURRENT_VERSION) {
                return None;
            }
            out.append("` is running version ");
            out.append(msg.version.as_str());
            out.append(", the host binaries are ");
        },
        Some(Message::Error(_)) => {
            out.append("` will not report a version, the host binaries are ");
        },
        _ => return None,
    }
    out.append(CURRENT_VERSION);
    out.append("\nrun `ncap-ctl restart` to match them back at one version");
    Some(out)
}

/// The probe stays silent about a server of the host's version, and about
/// one that gave no answer or another one. It warns of any other version,
/// naming the socket, that version and the host's, and of a server that
/// answers with an error.
pub proof fn law_only_a_skew_is_warned_of(
    socket: Seq<char>,
    version: Seq<char>,
    refusal: Seq<char>,
    reply: Option<MessageModel>,
)
    ensures
        skew(socket, Some(MessageModel::ServerVersion(version))) is Some <==> version
            != CURRENT_VERSION@,
        skew(socket, Some(MessageModel::Error(refusal))) is Some,
        skew(socket, None) is None,
        PROBE_TIMEOUT_SECS == 2,
        reply matches Some(m) && !(m is ServerVersion) && !(m is Error) ==> skew(socket, reply)
            is None,
        version != CURRENT_VERSION@ ==> ({
            let warning = skew(socket, Some(MessageModel::ServerVersion(version)))->0;
            &&& text::occurs(warning, "server on `"@ + socket + "`"@)
            &&& text::occurs(warning, "running version "@ + version)
            &&& text::occurs(warning, "host binaries are "@ + CURRENT_VERSION@)
            &&& text::occurs(warning, "run `ncap-ctl restart`"@)
        }),
{
    if version != CURRENT_VERSION@ {
        let warning = skew(socket, Some(MessageModel::ServerVersion(version)))->0;
        reveal_strlit("ncap-ctl: server on `");
        reveal_strlit("server on `");
        reveal_strlit("` is running version ");
        reveal_strlit("running version ");
        reveal_strlit("`");
        reveal_strlit(", the host binaries are ");
        reveal_strlit("host binaries are ");
        reveal_strlit("ncap-ctl: ");
        reveal_strlit(" is ");
        reveal_strlit(", the ");
        reveal_strlit("\n");
        reveal_strlit("run `ncap-ctl restart`");
        reveal_strlit(" to match them back at one version");
        reveal_strlit("\nrun `ncap-ctl restart` to match them back at one version");
        assert(advice() =~= "\n"@ + "run `ncap-ctl restart`"@
            + " to match them back at one version"@);
        assert("ncap-ctl: server on `"@ =~= "ncap-ctl: "@ + "server on `"@);
        assert("` is running version "@ =~= "`"@ + " is "@ + "running version "@);
        assert(", the host binaries are "@ =~= ", the "@ + "host binaries are "@);
        let a = "ncap-ctl: "@;
        let b = "server on `"@ + socket + "`"@;
        let c = " is "@;
        let d = "running version "@ + version;
        let e = ", the "@;
        let f = "host binaries are "@ + CURRENT_VERSION@;
        let g = "\n"@;
        let h = "run `ncap-ctl restart`"@;
        let i = " to match them back at one version"@;
        assert(warning =~= a + b + c + d + e + f + g + h + i);
        text::law_occurrence_splits_the_text(a, b, c + d + e + f + g + h + i);
        assert(a + b + (c + d + e + f + g + h + i) =~= warning);
        text::law_occurrence_splits_the_text(a + b + c, d, e + f + g + h + i);
        assert(a + b + c + d + (e + f + g + h + i) =~= warning);
        text::law_occurrence_splits_the_text(a + b + c + d + e, f, g + h + i);
        assert(a + b + c + d + e + f + (g + h + i) =~= warning);
        text::law_occurrence_splits_the_text(a + b + c + d + e + f + g, h, i);
    }
}

/// The warning of a server that will not report a version names the server,
/// the host's version and the way out.
pub proof fn law_refusal_is_warned_of(socket: Seq<char>, refusal: Seq<char>)
    ensures
        ({
            let warning = skew(socket, Some(MessageModel::Error(refusal)))->0;
            &&& text::occurs(warning, "server on `"@ + socket + "` will not report a version"@)
            &&& text::occurs(warning, "host binaries are "@ + CURRENT_VERSION@)
            &&& text::occurs(warning, "run `ncap-ctl restart`"@)
        }),
{
    let warning = skew(socket, Some(MessageModel::Error(refusal)))->0;
    let a = "ncap-ctl: "@;
    let b = "server on `"@ + socket + "` will not report a version"@;
    let c = ", the "@;
    let d = "host binaries are "@ + CURRENT_VERSION@;
    let e = "\n"@;
    let f = "run `ncap-ctl restart`"@;
    let g = " to match them back at one version"@;
    assert(advice() =~= e + f + g) by {
        reveal_strlit("\n");
        reveal_strlit("run `ncap-ctl restart`");
        reveal_strlit(" to match them back at one version");
        reveal_strlit("\nrun `ncap-ctl restart` to match them back at one version");
    }
    assert("ncap-ctl: server on `"@ =~= a + "server on `"@) by {
        reveal_strlit("ncap-ctl: server on `");
        reveal_strlit("ncap-ctl: ");
        reveal_strlit("server on `");
    }
    assert("` will not report a version, the host binaries are "@
        =~= "` will not report a version"@ + c + "host binaries are "@) by {
        reveal_strlit("` will not report a version, the host binaries are ");
        reveal_strlit("` will not report a version");
        reveal_strlit(", the ");
        reveal_strlit("host binaries are ");
    }
    assert(warning =~= a + b + c + d + e + f + g);
    text::law_occurrence_splits_the_text(a, b, c + d + e + f + g);
    assert(a + b + (c + d + e + f + g) =~= warning);
    text::law_occurrence_splits_the_text(a + b + c, d, e + f + g);
    assert(a + b + c + d + (e + f + g) =~= warning);
    text::law_occurrence_splits_the_text(a + b + c + d + e, f, g);
}

} // verus!
