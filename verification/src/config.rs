//! Static configuration: the default socket name, the socket base directory,
//! the fallback editor, and the status-line style. Loading a configuration
//! from the environment (home-directory discovery, directory creation and
//! permissions) is I/O and lives outside the library; here the values are
//! held and tilde expansion is given exact semantics.

use vstd::prelude::*;

use crate::standard_styled::Style;
use crate::text;
use crate::text::spec_join_path;
use crate::text::spec_starts_with;

verus! {

/// The configuration a registry and lifecycle operation runs under.
pub struct Config {
    pub default_socket: String,
    pub server_socket_dir: String,
    pub editor: String,
    pub style: Style,
}

impl Config {
    /// The editor to fall back on when no daemon can be reached.
    pub fn alternative_editor(&self) -> (r: &String)
        ensures
            r@ == self.editor@,
    {
        &self.editor
    }

    /// The socket name used when none is supplied.
    pub fn default_socket_name(&self) -> (r: &String)
        ensures
            r@ == self.default_socket@,
    {
        &self.default_socket
    }

    /// Assemble a configuration from its parts.
    pub fn new(
        default_socket: String,
        server_socket_dir: String,
        editor: String,
        style: Style,
    ) -> (r: Self)
        ensures
            r.default_socket@ == default_socket@,
            r.server_socket_dir@ == server_socket_dir@,
            r.editor@ == editor@,
            r.style == style,
    {
        Config { default_socket, server_socket_dir, editor, style }
    }

    /// The directory the daemon socket files are expected under.
    pub fn server_socket_dir(&self) -> (r: &String)
        ensures
            r@ == self.server_socket_dir@,
    {
        &self.server_socket_dir
    }

    /// The status-line style.
    pub fn style(&self) -> (r: &Style)
        ensures
            *r == self.style,
    {
        &self.style
    }
}

/// Leading separators removed.
pub open spec fn strip_leading_slashes(s: Seq<char>) -> Seq<char>
    decreases s.len(),
{
    if s.len() > 0 && s[0] == '/' {
        strip_leading_slashes(s.skip(1))
    } else {
        s
    }
}

/// Tilde expansion: a path whose first component is `~` is re-rooted at the
/// given home directory; any other path is returned unchanged.
pub open spec fn spec_expand_tilde(path: Seq<char>, home: Seq<char>) -> Seq<char> {
    if path == seq!['~'] {
        home
    } else if spec_starts_with(path, seq!['~', '/']) {
        spec_join_path(home, strip_leading_slashes(path.skip(2)))
    } else {
        path
    }
}

/// Expand a leading `~` component of `path` to the given home directory.
pub fn expand_tilde_as_home(path: &str, home: &str) -> (r: String)
    ensures
        r@ == spec_expand_tilde(path@, home@),
{
    let n = path.unicode_len();
    if n == 1 && path.get_char(0) == '~' {
        proof {
            assert(path@ =~= seq!['~']);
        }
        return home.to_owned();
    }
    if n >= 2 && path.get_char(0) == '~' && path.get_char(1) == '/' {
        proof {
            assert(path@ != seq!['~']);
            assert(path@.subrange(0, 2) =~= seq!['~', '/']);
        }
        let mut k: usize = 2;
        while k < n && path.get_char(k) == '/'
            invariant
                2 <= k <= n,
                n == path@.len(),
                strip_leading_slashes(path@.skip(2)) == strip_leading_slashes(
                    path@.skip(k as int),
                ),
            decreases n - k,
        {
            proof {
                assert(path@.skip(k as int).skip(1) =~= path@.skip(k + 1));
            }
            k = k + 1;
        }
        let rest = path.substring_char(k, n);
        proof {
            assert(rest@ == path@.skip(k as int)) by {
                assert(path@.subrange(k as int, n as int) =~= path@.skip(k as int));
            }
        }
        return text::join_path(home, rest);
    }
    proof {
        assert(path@ != seq!['~']) by {
            if path@ == seq!['~'] {
                assert(path@.len() == 1);
                assert(path@[0] == '~');
            }
        }
        assert(!spec_starts_with(path@, seq!['~', '/'])) by {
            if spec_starts_with(path@, seq!['~', '/']) {
                assert(path@.subrange(0, 2)[0] == path@[0]);
                assert(path@.subrange(0, 2)[1] == path@[1]);
            }
        }
    }
    path.to_owned()
}

} // verus!
