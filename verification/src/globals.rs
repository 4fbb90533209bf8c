//! Which of the compositor's globals to bind, and at what version.

use vstd::prelude::*;

use crate::text::same;

verus! {

/// A global that one of the Wayland clients here uses.
#[derive(Clone, Copy, Debug, PartialEq, Eq, Structural)]
pub enum Global {
    Compositor,
    Shm,
    Seat,
    Output,
    LayerShell,
    Screencopy,
}

/// A global to bind, and the version to ask for.
#[derive(Clone, Copy, Debug, PartialEq, Eq, Structural)]
pub struct Binding {
    pub global: Global,
    pub version: u32,
}

/// The advertised version, but none newer than the client was written for.
pub open spec fn capped(version: u32, newest: u32) -> u32 {
    if version < newest {
        version
    } else {
        newest
    }
}

/// The interface by which the compositor advertises a global.
pub open spec fn interface_of(global: Global) -> Seq<char> {
    match global {
        Global::Compositor => "wl_compositor"@,
        Global::Shm => "wl_shm"@,
        Global::Seat => "wl_seat"@,
        Global::Output => "wl_output"@,
        Global::LayerShell => "zwlr_layer_shell_v1"@,
        Global::Screencopy => "zwlr_screencopy_manager_v1"@,
    }
}

proof fn lemma_interfaces_differ(a: Global, b: Global)
    ensures
        interface_of(a) == interface_of(b) ==> a == b,
{
    reveal_strlit("wl_compositor");
    reveal_strlit("wl_shm");
    reveal_strlit("wl_seat");
    reveal_strlit("wl_output");
    reveal_strlit("zwlr_layer_shell_v1");
    reveal_strlit("zwlr_screencopy_manager_v1");
    assert("wl_shm"@[3] == 's');
    assert("wl_shm"@.len() == 6);
    assert("wl_seat"@.len() == 7);
    assert("wl_output"@.len() == 9);
    assert("wl_compositor"@.len() == 13);
    assert("zwlr_layer_shell_v1"@.len() == 19);
    assert("zwlr_screencopy_manager_v1"@.len() == 26);
}

/// The global that an interface advertises; `None` for one that no client here uses.
fn global_of(interface: &str) -> (r: Option<Global>)
    ensures
        match r {
            Some(g) => interface@ == interface_of(g),
            None => forall|g: Global| interface@ != #[trigger] interface_of(g),
        },
{
    if same(interface, "wl_compositor") {
        Some(Global::Compositor)
    } else if same(interface, "wl_shm") {
        Some(Global::Shm)
    } else if same(interface, "wl_seat") {
        Some(Global::Seat)
    } else if same(interface, "wl_output") {
        Some(Global::Output)
    } else if same(interface, "zwlr_layer_shell_v1") {
        Some(Global::LayerShell)
    } else if same(interface, "zwlr_screencopy_manager_v1") {
        Some(Global::Screencopy)
    } else {
        None
    }
}

/// The newest version of a global that capturing an output was written for; outputs
/// report their name since version 4.
pub open spec fn capture_newest(global: Global) -> Option<u32> {
    match global {
        Global::Shm => Some(1),
        Global::Output => Some(4),
        Global::Screencopy => Some(3),
        _ => None,
    }
}

/// The newest version of a global that the selection overlay was written for. It binds
/// outputs in order to appear on the one that was grabbed.
pub open spec fn overlay_newest(global: Global) -> Option<u32> {
    match global {
        Global::Compositor => Some(4),
        Global::Shm => Some(1),
        Global::Seat => Some(5),
        Global::Output => Some(4),
        Global::LayerShell => Some(1),
        _ => None,
    }
}

/// The newest version of a global that the region outline was written for.
pub open spec fn indicator_newest(global: Global) -> Option<u32> {
    match global {
        Global::Compositor => Some(4),
        Global::Shm => Some(1),
        Global::LayerShell => Some(4),
        Global::Output => Some(4),
        _ => None,
    }
}

/// `r` binds the global that `interface` advertises, at most at the newest version
/// that `newest` gives, and nothing where `newest` gives none.
pub open spec fn binds(
    r: Option<Binding>,
    interface: Seq<char>,
    version: u32,
    newest: spec_fn(Global) -> Option<u32>,
) -> bool {
    match r {
        Some(b) => {
            &&& interface == interface_of(b.global)
            &&& newest(b.global) matches Some(n)
            &&& b.version == capped(version, n)
        },
        None => forall|g: Global| #[trigger] interface_of(g) == interface ==> newest(g) is None,
    }
}

fn bind_at_most(global: Global, version: u32, newest: u32) -> (b: Option<Binding>)
    ensures
        b == Some(Binding { global, version: capped(version, newest) }),
{
    Some(
        Binding {
            global,
            version: if version < newest {
                version
            } else {
                newest
            },
        },
    )
}

/// What capturing an output binds when the compositor advertises `interface`.
pub fn capture_binding(interface: &str, version: u32) -> (r: Option<Binding>)
    ensures
        binds(r, interface@, version, |g: Global| capture_newest(g)),
{
    match global_of(interface) {
        None => None,
        Some(g) => {
            proof {
                assert forall|o: Global| #[trigger] interface_of(o) == interface@ implies o == g by {
                    lemma_interfaces_differ(o, g);
                }
            }
            match g {
                Global::Shm => bind_at_most(g, version, 1),
                Global::Output => bind_at_most(g, version, 4),
                Global::Screencopy => bind_at_most(g, version, 3),
                _ => None,
            }
        },
    }
}

/// What the selection overlay binds when the compositor advertises `interface`.
pub fn overlay_binding(interface: &str, version: u32) -> (r: Option<Binding>)
    ensures
        binds(r, interface@, version, |g: Global| overlay_newest(g)),
{
    match global_of(interface) {
        None => None,
        Some(g) => {
            proof {
                assert forall|o: Global| #[trigger] interface_of(o) == interface@ implies o == g by {
                    lemma_interfaces_differ(o, g);
                }
            }
            match g {
                Global::Compositor => bind_at_most(g, version, 4),
                Global::Shm => bind_at_most(g, version, 1),
                Global::Seat => bind_at_most(g, version, 5),
                Global::Output => bind_at_most(g, version, 4),
                Global::LayerShell => bind_at_most(g, version, 1),
                _ => None,
            }
        },
    }
}

/// What the region outline binds when the compositor advertises `interface`.
pub fn indicator_binding(interface: &str, version: u32) -> (r: Option<Binding>)
    ensures
        binds(r, interface@, version, |g: Global| indicator_newest(g)),
{
    match global_of(interface) {
        None => None,
        Some(g) => {
            proof {
                assert forall|o: Global| #[trigger] interface_of(o) == interface@ implies o == g by {
                    lemma_interfaces_differ(o, g);
                }
            }
            match g {
                Global::Compositor => bind_at_most(g, version, 4),
                Global::Shm => bind_at_most(g, version, 1),
                Global::LayerShell => bind_at_most(g, version, 4),
                Global::Output => bind_at_most(g, version, 4),
                _ => None,
            }
        },
    }
}

/// No version newer than the newest known is asked for, and no older than the one that there
/// is.
pub proof fn law_version_is_the_older_of_two(version: u32, newest: u32)
    ensures
        capped(version, newest) <= version,
        capped(version, newest) <= newest,
        capped(version, newest) == version || capped(version, newest) == newest,
{
}

proof fn lemma_bound(
    r: Option<Binding>,
    interface: Seq<char>,
    version: u32,
    newest: spec_fn(Global) -> Option<u32>,
    g: Global,
)
    requires
        binds(r, interface, version, newest),
        interface == interface_of(g),
    ensures
        match newest(g) {
            Some(n) => r == Some(Binding { global: g, version: capped(version, n) }),
            None => r is None,
        },
{
    if let Some(b) = r {
        lemma_interfaces_differ(b.global, g);
    }
}

/// A capture binds shared memory at version 1, outputs at most at version 4, and the screen
/// copy manager at most at version 3, under the names that the protocols give them, and
/// nothing else.
pub proof fn law_capture_binds_what_it_needs(r: Option<Binding>, interface: Seq<char>, version: u32)
    requires
        version >= 4,
        binds(r, interface, version, |g: Global| capture_newest(g)),
    ensures
        interface == "wl_shm"@ ==> r == Some(Binding { global: Global::Shm, version: 1 }),
        interface == "wl_output"@ ==> r == Some(Binding { global: Global::Output, version: 4 }),
        interface == "zwlr_screencopy_manager_v1"@ ==> r == Some(
            Binding { global: Global::Screencopy, version: 3 },
        ),
        interface != "wl_shm"@ && interface != "wl_output"@ && interface
            != "zwlr_screencopy_manager_v1"@ ==> r is None,
{
    let newest = |g: Global| capture_newest(g);
    if interface == "wl_shm"@ {
        lemma_bound(r, interface, version, newest, Global::Shm);
    }
    if interface == "wl_output"@ {
        lemma_bound(r, interface, version, newest, Global::Output);
    }
    if interface == "zwlr_screencopy_manager_v1"@ {
        lemma_bound(r, interface, version, newest, Global::Screencopy);
    }
}

/// The selection overlay binds the compositor at most at version 4, shared memory at 1, the
/// seat at 5, outputs at 4 and the layer shell at 1, and nothing else.
pub proof fn law_overlay_binds_what_it_needs(r: Option<Binding>, interface: Seq<char>, version: u32)
    requires
        version >= 5,
        binds(r, interface, version, |g: Global| overlay_newest(g)),
    ensures
        interface == "wl_compositor"@ ==> r == Some(
            Binding { global: Global::Compositor, version: 4 },
        ),
        interface == "wl_shm"@ ==> r == Some(Binding { global: Global::Shm, version: 1 }),
        interface == "wl_seat"@ ==> r == Some(Binding { global: Global::Seat, version: 5 }),
        interface == "wl_output"@ ==> r == Some(Binding { global: Global::Output, version: 4 }),
        interface == "zwlr_layer_shell_v1"@ ==> r == Some(
            Binding { global: Global::LayerShell, version: 1 },
        ),
        interface != "wl_compositor"@ && interface != "wl_shm"@ && interface != "wl_seat"@
            && interface != "wl_output"@ && interface != "zwlr_layer_shell_v1"@ ==> r is None,
{
    let newest = |g: Global| overlay_newest(g);
    if interface == "wl_compositor"@ {
        lemma_bound(r, interface, version, newest, Global::Compositor);
    }
    if interface == "wl_shm"@ {
        lemma_bound(r, interface, version, newest, Global::Shm);
    }
    if interface == "wl_seat"@ {
        lemma_bound(r, interface, version, newest, Global::Seat);
    }
    if interface == "wl_output"@ {
        lemma_bound(r, interface, version, newest, Global::Output);
    }
    if interface == "zwlr_layer_shell_v1"@ {
        lemma_bound(r, interface, version, newest, Global::LayerShell);
    }
}

/// The region outline binds the compositor, the layer shell and outputs at most at version 4
/// and shared memory at 1, and nothing else.
pub proof fn law_indicator_binds_what_it_needs(
    r: Option<Binding>,
    interface: Seq<char>,
    version: u32,
)
    requires
        version >= 4,
        binds(r, interface, version, |g: Global| indicator_newest(g)),
    ensures
        interface == "wl_compositor"@ ==> r == Some(
            Binding { global: Global::Compositor, version: 4 },
        ),
        interface == "wl_shm"@ ==> r == Some(Binding { global: Global::Shm, version: 1 }),
        interface == "wl_output"@ ==> r == Some(Binding { global: Global::Output, version: 4 }),
        interface == "zwlr_layer_shell_v1"@ ==> r == Some(
            Binding { global: Global::LayerShell, version: 4 },
        ),
        interface != "wl_compositor"@ && interface != "wl_shm"@ && interface != "wl_output"@
            && interface != "zwlr_layer_shell_v1"@ ==> r is None,
{
    let newest = |g: Global| indicator_newest(g);
    if interface == "wl_compositor"@ {
        lemma_bound(r, interface, version, newest, Global::Compositor);
    }
    if interface == "wl_shm"@ {
        lemma_bound(r, interface, version, newest, Global::Shm);
    }
    if interface == "wl_output"@ {
        lemma_bound(r, interface, version, newest, Global::Output);
    }
    if interface == "zwlr_layer_shell_v1"@ {
        lemma_bound(r, interface, version, newest, Global::LayerShell);
    }
}

/// An older global is bound at the version that there is: what is bound at version `a` is
/// bound at version `b` too, each at its own version unless that is newer than the client.
pub proof fn law_old_globals_are_bound_as_they_are(
    r: Option<Binding>,
    s: Option<Binding>,
    interface: Seq<char>,
    a: u32,
    b: u32,
    newest: spec_fn(Global) -> Option<u32>,
)
    requires
        a <= b,
        binds(r, interface, a, newest),
        binds(s, interface, b, newest),
    ensures
        r is Some <==> s is Some,
        match (r, s) {
            (Some(x), Some(y)) => {
                &&& x.global == y.global
                &&& x.version <= a && y.version <= b
                &&& x.version == (if a < y.version {
                    a
                } else {
                    y.version
                })
            },
            _ => true,
        },
{
    if let Some(x) = r {
        lemma_bound(s, interface, b, newest, x.global);
    }
    if let Some(y) = s {
        lemma_bound(r, interface, a, newest, y.global);
    }
}

} // verus!
