//! Where the application keeps its files.
use super::Platform;
use crate::path;
use crate::text;
use vstd::prelude::*;
use vstd::string::*;

verus! {

#[derive(Debug, PartialEq, Eq)]
pub struct Paths {
    pub config: Vec<u8>,
    pub log: Vec<u8>,
    pub runtime: Vec<u8>,
}

/// Values of the XDG variables, where they are set.
#[derive(Debug)]
pub struct XdgOverrides<'a> {
    pub config: Option<&'a [u8]>,
    pub state: Option<&'a [u8]>,
    pub runtime: Option<&'a [u8]>,
}

impl<'a> Default for XdgOverrides<'a> {
    fn default() -> (r: Self)
        ensures
            r.config is None,
            r.state is None,
            r.runtime is None,
    {
        XdgOverrides { config: None, state: None, runtime: None }
    }
}

/// What `Paths` say.
#[verifier::ext_equal]
pub struct PathsModel {
    pub config: Seq<u8>,
    pub log: Seq<u8>,
    pub runtime: Seq<u8>,
}

impl View for Paths {
    type V = PathsModel;

    open spec fn view(&self) -> PathsModel {
        PathsModel { config: self.config@, log: self.log@, runtime: self.runtime@ }
    }
}

/// What `XdgOverrides` say.
#[verifier::ext_equal]
pub struct OverridesModel {
    pub config: Option<Seq<u8>>,
    pub state: Option<Seq<u8>>,
    pub runtime: Option<Seq<u8>>,
}

pub open spec fn optional_bytes(value: Option<&[u8]>) -> Option<Seq<u8>> {
    match value {
        Some(p) => Some(p@),
        None => None,
    }
}

impl<'a> View for XdgOverrides<'a> {
    type V = OverridesModel;

    open spec fn view(&self) -> OverridesModel {
        OverridesModel {
            config: optional_bytes(self.config),
            state: optional_bytes(self.state),
            runtime: optional_bytes(self.runtime),
        }
    }
}

/// The application's directory below an override, if the override is absolute, and else
/// `fallback`.
pub open spec fn overridden(value: Option<Seq<u8>>, fallback: Seq<u8>) -> Seq<u8> {
    match value {
        Some(p) => if path::absolute(p) {
            path::below(p, path::bytes("tunnel-deck"@))
        } else {
            fallback
        },
        None => fallback,
    }
}

pub open spec fn default_config(platform: Platform) -> Seq<char> {
    match platform {
        Platform::Linux => ".config/tunnel-deck"@,
        Platform::MacOs => "Library/Application Support/TunnelDeck"@,
    }
}

pub open spec fn default_state(platform: Platform) -> Seq<char> {
    match platform {
        Platform::Linux => ".local/state/tunnel-deck"@,
        Platform::MacOs => "Library/Logs/TunnelDeck"@,
    }
}

pub open spec fn temporary_directory(platform: Platform) -> Seq<char> {
    match platform {
        Platform::Linux => "/tmp"@,
        Platform::MacOs => "/private/tmp"@,
    }
}

/// The runtime directory of a user who has no usable override.
pub open spec fn default_runtime(platform: Platform, uid: u32) -> Seq<u8> {
    path::below(
        path::bytes(temporary_directory(platform)),
        path::bytes("tunnel-deck-"@ + text::decimal(uid as nat)),
    )
}

/// All paths, for a home that is absolute.
pub open spec fn resolved(
    platform: Platform,
    home: Seq<u8>,
    uid: u32,
    xdg: OverridesModel,
    runtime_private: bool,
) -> Option<PathsModel> {
    if path::absolute(home) {
        Some(
            PathsModel {
                config: path::below(
                    overridden(
                        xdg.config,
                        path::below(home, path::bytes(default_config(platform))),
                    ),
                    path::bytes("config.toml"@),
                ),
                log: path::below(
                    overridden(
                        xdg.state,
                        path::below(home, path::bytes(default_state(platform))),
                    ),
                    path::bytes("tunnel-deck.log"@),
                ),
                runtime: if runtime_private {
                    overridden(xdg.runtime, default_runtime(platform, uid))
                } else {
                    default_runtime(platform, uid)
                },
            },
        )
    } else {
        None
    }
}

/// Bytes of a socket path, with the zero byte at its end.
pub open spec fn socket_limit(platform: Platform) -> nat {
    match platform {
        Platform::Linux => 108,
        Platform::MacOs => 104,
    }
}

fn chosen(value: Option<&[u8]>, fallback: Vec<u8>) -> (r: Vec<u8>)
    ensures
        r@ == overridden(optional_bytes(value), fallback@),
{
    match value {
        Some(p) => if p.len() > 0 && p[0] == 0x2f {
            path::join_text(p, "tunnel-deck")
        } else {
            fallback
        },
        None => fallback,
    }
}

/// Whether a socket path of this length leaves room for the zero byte at its end.
pub fn fits_socket(platform: Platform, length: usize) -> (r: bool)
    ensures
        r == (length < socket_limit(platform)),
{
    match platform {
        Platform::Linux => length < 108,
        Platform::MacOs => length < 104,
    }
}

impl Paths {
    /// Chooses all paths. Overrides that are not absolute are ignored. So is a runtime override
    /// that is not `runtime_private`, that is, not a private directory of the user.
    pub fn resolve(
        platform: Platform,
        home: &[u8],
        uid: u32,
        xdg: &XdgOverrides,
        runtime_private: bool,
    ) -> (r: Result<Self, &'static str>)
        ensures
            match r {
                Ok(paths) => resolved(platform, home@, uid, xdg@, runtime_private) == Some(paths@),
                Err(message) => resolved(platform, home@, uid, xdg@, runtime_private) is None
                    && message@ == "home must be absolute"@,
            },
    {
        if !(home.len() > 0 && home[0] == 0x2f) {
            return Err("home must be absolute");
        }
        let config_part = match platform {
            Platform::Linux => ".config/tunnel-deck",
            Platform::MacOs => "Library/Application Support/TunnelDeck",
        };
        let state_part = match platform {
            Platform::Linux => ".local/state/tunnel-deck",
            Platform::MacOs => "Library/Logs/TunnelDeck",
        };
        let temporary = match platform {
            Platform::Linux => "/tmp",
            Platform::MacOs => "/private/tmp",
        };
        let config = chosen(xdg.config, path::join_text(home, config_part));
        let state = chosen(xdg.state, path::join_text(home, state_part));
        let mut own = "tunnel-deck-".to_owned();
        text::push_decimal(&mut own, uid as u64);
        let fallback = path::join_text(temporary.as_bytes(), own.as_str());
        let runtime = if runtime_private {
            chosen(xdg.runtime, fallback)
        } else {
            fallback
        };
        Ok(
            Paths {
                config: path::join_text(config.as_slice(), "config.toml"),
                log: path::join_text(state.as_slice(), "tunnel-deck.log"),
                runtime,
            },
        )
    }

    /// The path of the daemon's socket, if it is short enough for one.
    pub fn socket_path(&self, platform: Platform) -> (r: Result<Vec<u8>, &'static str>)
        ensures
            ({
                let p = path::below(self.runtime@, path::bytes("tdeck.sock"@));
                match r {
                    Ok(found) => found@ == p && p.len() < socket_limit(platform),
                    Err(message) => p.len() >= socket_limit(platform) && message@
                        == "Unix socket path is too long"@,
                }
            }),
    {
        let found = path::join_text(self.runtime.as_slice(), "tdeck.sock");
        if fits_socket(platform, found.len()) {
            Ok(found)
        } else {
            Err("Unix socket path is too long")
        }
    }
}

// ---------------------------------------------------------------------------
// Laws
// ---------------------------------------------------------------------------
/// Only a home that is not absolute fails.
pub proof fn only_a_relative_home_fails(
    platform: Platform,
    home: Seq<u8>,
    uid: u32,
    xdg: OverridesModel,
    runtime_private: bool,
)
    ensures
        resolved(platform, home, uid, xdg, runtime_private) is None <==> !path::absolute(home),
{
}

/// A relative override gives what its absence gives.
pub proof fn relative_overrides_are_ignored(
    platform: Platform,
    home: Seq<u8>,
    uid: u32,
    xdg: OverridesModel,
    runtime_private: bool,
    relative: Seq<u8>,
)
    requires
        !path::absolute(relative),
    ensures
        resolved(
            platform,
            home,
            uid,
            OverridesModel { config: Some(relative), ..xdg },
            runtime_private,
        ) == resolved(platform, home, uid, OverridesModel { config: None, ..xdg }, runtime_private),
        resolved(
            platform,
            home,
            uid,
            OverridesModel { state: Some(relative), ..xdg },
            runtime_private,
        ) == resolved(platform, home, uid, OverridesModel { state: None, ..xdg }, runtime_private),
        resolved(
            platform,
            home,
            uid,
            OverridesModel { runtime: Some(relative), ..xdg },
            runtime_private,
        ) == resolved(platform, home, uid, OverridesModel { runtime: None, ..xdg }, runtime_private),
{
}

/// Absolute overrides for configuration and state count alike on every platform.
pub proof fn absolute_overrides_count(
    platform: Platform,
    home: Seq<u8>,
    uid: u32,
    xdg: OverridesModel,
    runtime_private: bool,
)
    requires
        path::absolute(home),
    ensures
        xdg.config matches Some(c) && path::absolute(c) ==> resolved(
            platform,
            home,
            uid,
            xdg,
            runtime_private,
        )->0.config == path::below(
            path::below(xdg.config->0, path::bytes("tunnel-deck"@)),
            path::bytes("config.toml"@),
        ),
        xdg.state matches Some(s) && path::absolute(s) ==> resolved(
            platform,
            home,
            uid,
            xdg,
            runtime_private,
        )->0.log == path::below(
            path::below(xdg.state->0, path::bytes("tunnel-deck"@)),
            path::bytes("tunnel-deck.log"@),
        ),
{
}

proof fn digit_is_ascii(c: char)
    requires
        text::digit(c),
    ensures
        '\0' <= c <= '\u{7f}',
{
}

/// The fallback for runtime files is absolute and ends in a digit.
proof fn fallback_shape(platform: Platform, uid: u32)
    ensures
        path::absolute(default_runtime(platform, uid)),
        0x30 <= default_runtime(platform, uid).last() <= 0x39,
{
    let base = temporary_directory(platform);
    let number = text::decimal(uid as nat);
    let own = "tunnel-deck-"@ + number;
    reveal_strlit("/tmp");
    reveal_strlit("/private/tmp");
    reveal_strlit("tunnel-deck-");
    text::decimal_reads_back(uid as nat);
    assert(own.last() == number.last());
    assert(text::digit(number[number.len() - 1]));
    let prefix = "tunnel-deck-"@;
    assert(vstd::utf8::is_ascii_chars(prefix));
    assert forall|i: int| 0 <= i < own.len() implies '\0' <= #[trigger] own[i] <= '\u{7f}' by {
        if i < prefix.len() {
            assert(own[i] == prefix[i]);
        } else {
            assert(own[i] == number[i - prefix.len()]);
            digit_is_ascii(number[i - prefix.len()]);
        }
    }
    assert(vstd::utf8::is_ascii_chars(base));
    assert(vstd::utf8::is_ascii_chars(own));
    vstd::utf8::is_ascii_chars_encode_utf8(base);
    vstd::utf8::is_ascii_chars_encode_utf8(own);
    assert(path::bytes(base)[0] == 0x2f);
    assert(path::bytes(own)[0] == 0x74);
    assert(path::bytes(own).last() == own.last() as u8);
}

/// The application's directory is relative below a relative path, and ends in a letter.
proof fn own_directory_shape(base: Seq<u8>)
    ensures
        path::absolute(path::below(base, path::bytes("tunnel-deck"@))) ==> path::absolute(base),
        path::below(base, path::bytes("tunnel-deck"@)).last() == 0x6b,
{
    reveal_strlit("tunnel-deck");
    let part = "tunnel-deck"@;
    assert(vstd::utf8::is_ascii_chars(part));
    vstd::utf8::is_ascii_chars_encode_utf8(part);
    assert(path::bytes(part)[0] == 0x74);
    assert(path::bytes(part).last() == 0x6b);
}

/// A runtime override is used exactly when it is absolute and private. In every other case the
/// platform's default is used.
pub proof fn runtime_override_is_used_when_safe(
    platform: Platform,
    home: Seq<u8>,
    uid: u32,
    xdg: OverridesModel,
    runtime_private: bool,
)
    requires
        path::absolute(home),
    ensures
        ({
            let runtime = resolved(platform, home, uid, xdg, runtime_private)->0.runtime;
            match xdg.runtime {
                Some(r) => {
                    &&& runtime == path::below(r, path::bytes("tunnel-deck"@)) <==> path::absolute(
                        r,
                    ) && runtime_private
                    &&& !(path::absolute(r) && runtime_private) ==> runtime == default_runtime(
                        platform,
                        uid,
                    )
                },
                None => runtime == default_runtime(platform, uid),
            }
        }),
{
    fallback_shape(platform, uid);
    match xdg.runtime {
        Some(r) => {
            own_directory_shape(r);
        },
        None => {},
    }
}

/// Without overrides, configuration and log are where each platform keeps them below the home, and
/// the runtime directory is the user's own in the temporary directory.
pub proof fn default_places(platform: Platform, home: Seq<u8>, uid: u32, runtime_private: bool)
    requires
        path::absolute(home),
    ensures
        ({
            let none = OverridesModel { config: None, state: None, runtime: None };
            let found = resolved(platform, home, uid, none, runtime_private);
            let below = |name: Seq<char>| path::below(home, path::bytes(name));
            let user = path::bytes("tunnel-deck-"@ + text::decimal(uid as nat));
            &&& found is Some
            &&& platform == Platform::Linux ==> {
                &&& found->0.config == path::below(
                    below(".config/tunnel-deck"@),
                    path::bytes("config.toml"@),
                )
                &&& found->0.log == path::below(
                    below(".local/state/tunnel-deck"@),
                    path::bytes("tunnel-deck.log"@),
                )
                &&& found->0.runtime == path::below(path::bytes("/tmp"@), user)
            }
            &&& platform == Platform::MacOs ==> {
                &&& found->0.config == path::below(
                    below("Library/Application Support/TunnelDeck"@),
                    path::bytes("config.toml"@),
                )
                &&& found->0.log == path::below(
                    below("Library/Logs/TunnelDeck"@),
                    path::bytes("tunnel-deck.log"@),
                )
                &&& found->0.runtime == path::below(path::bytes("/private/tmp"@), user)
            }
        }),
{
}

/// A socket path must leave room for a zero byte within the limit of the platform.
pub proof fn socket_paths_are_limited()
    ensures
        socket_limit(Platform::Linux) == 108,
        socket_limit(Platform::MacOs) == 104,
{
}

/// What paths and overrides say is what they hold.
pub proof fn paths_say_what_they_hold(paths: Paths, xdg: XdgOverrides)
    ensures
        paths@.config == paths.config@,
        paths@.log == paths.log@,
        paths@.runtime == paths.runtime@,
        xdg.config matches Some(p) ==> xdg@.config == Some(p@),
        xdg.config is None ==> xdg@.config is None,
        xdg.state matches Some(p) ==> xdg@.state == Some(p@),
        xdg.state is None ==> xdg@.state is None,
        xdg.runtime matches Some(p) ==> xdg@.runtime == Some(p@),
        xdg.runtime is None ==> xdg@.runtime is None,
{
}

} // verus!
