//! The proxy's knowledge of the Wayland objects it rewrites, and its settings.
use vstd::prelude::*;
use crate::wire::{bind_layer_shell, bind_message};

verus! {

/// Command-line settings of the proxy.
pub struct Cli {
    /// Anchor to the left side.
    pub anchor_left: bool,
    /// Anchor to the right side.
    pub anchor_right: bool,
    /// Anchor to the top.
    pub anchor_top: bool,
    /// Anchor to the bottom.
    pub anchor_bottom: bool,
    /// Width of the layer shell window.
    pub width: u32,
    /// Height of the layer shell window.
    pub height: u32,
    /// Allow client-side decorations.
    pub allow_csd: bool,
    /// Margin on all sides.
    pub margins: u32,
    /// Layer shell layer: 0 background, 1 bottom, 2 top, 3 overlay.
    pub layer: u32,
    /// Command that starts the application.
    pub execute_command: Vec<String>,
}

/// The bits of `zwlr_layer_surface_v1.anchor` for the chosen sides: top 1,
/// bottom 2, left 4, right 8.
pub open spec fn anchor_bits(top: bool, bottom: bool, left: bool, right: bool) -> u32 {
    ((if top { 1int } else { 0 }) + (if bottom { 2int } else { 0 }) + (if left { 4int } else { 0 })
        + (if right { 8int } else { 0 })) as u32
}

/// The layer, anchors, size and margins the client's window is given.
#[derive(Clone, Copy, PartialEq, Eq, Structural, Debug)]
pub struct LayerSettings {
    /// 0 background, 1 bottom, 2 top, 3 overlay.
    pub layer: u32,
    /// Anchor bits; see [`anchor_bits`].
    pub anchor: u32,
    pub width: u32,
    pub height: u32,
    /// Margin on each of the four sides.
    pub margin: u32,
}

/// The settings that the command line `cli` chooses.
pub open spec fn settings_of(cli: &Cli) -> LayerSettings {
    LayerSettings {
        layer: cli.layer,
        anchor: anchor_bits(cli.anchor_top, cli.anchor_bottom, cli.anchor_left, cli.anchor_right),
        width: cli.width,
        height: cli.height,
        margin: cli.margins,
    }
}

impl Cli {
    /// The anchor bits of the chosen sides; see [`anchor_bits`].
    pub fn anchor(&self) -> (a: u32)
        ensures
            a == anchor_bits(self.anchor_top, self.anchor_bottom, self.anchor_left, self.anchor_right),
    {
        let mut a: u32 = 0;
        if self.anchor_top {
            a = a + 1;
        }
        if self.anchor_bottom {
            a = a + 2;
        }
        if self.anchor_left {
            a = a + 4;
        }
        if self.anchor_right {
            a = a + 8;
        }
        a
    }

    /// Whether the settings can be used: at least one anchor is set and the
    /// layer is one of the four layers.
    pub fn is_valid(&self) -> (r: bool)
        ensures
            r == ((self.anchor_top || self.anchor_bottom || self.anchor_left || self.anchor_right)
                && self.layer <= 3),
    {
        (self.anchor_top || self.anchor_bottom || self.anchor_left || self.anchor_right)
            && self.layer <= 3
    }

    /// The layer surface settings this command line chooses.
    pub fn layer_settings(&self) -> (s: LayerSettings)
        ensures
            s == settings_of(self),
    {
        LayerSettings {
            layer: self.layer,
            anchor: self.anchor(),
            width: self.width,
            height: self.height,
            margin: self.margins,
        }
    }
}

/// Object ids and globals that the proxy tracks while it rewrites the
/// conversation between one client and the compositor.
pub struct ProxyState {
    /// The client's `wl_registry`.
    pub registry_id: Option<u32>,
    /// Global name under which the compositor advertised `zwlr_layer_shell_v1`.
    pub advertised_layer_shell_name: Option<u32>,
    /// Global name under which the compositor advertised `xdg_wm_base`.
    pub advertised_xdg_wm_base_name: Option<u32>,
    /// The id the client bound `xdg_wm_base` to, bound to the layer shell instead.
    pub layer_shell_id: Option<u32>,
    /// The client's first `xdg_surface`, created as a layer surface instead.
    pub layer_surface_id: Option<u32>,
    /// The client's `xdg_toplevel` on that surface.
    pub xdg_toplevel_id: Option<u32>,
    /// The client's `zxdg_decoration_manager_v1`.
    pub xdg_decoration_id: Option<u32>,
    /// The client's toplevel decoration.
    pub xdg_toplevel_decoration_id: Option<u32>,
    /// Objects whose requests are dropped.
    pub client_blacklist_ids: Vec<u32>,
    /// Whether client-side decorations are to be forced off.
    pub needs_no_csd: bool,
    /// Further `xdg_surface` objects.
    pub xdg_surfaces: Vec<u32>,
    /// Further `xdg_wm_base` objects the client bound, after the first.
    pub xdg_wm_bases: Vec<u32>,
    /// How the layer surface is placed.
    pub settings: LayerSettings,
}

/// Mathematical model of [`ProxyState`].
#[verifier::ext_equal]
pub struct StateView {
    pub registry_id: Option<u32>,
    pub advertised_layer_shell_name: Option<u32>,
    pub advertised_xdg_wm_base_name: Option<u32>,
    pub layer_shell_id: Option<u32>,
    pub layer_surface_id: Option<u32>,
    pub xdg_toplevel_id: Option<u32>,
    pub xdg_decoration_id: Option<u32>,
    pub xdg_toplevel_decoration_id: Option<u32>,
    pub client_blacklist_ids: Seq<u32>,
    pub needs_no_csd: bool,
    pub xdg_surfaces: Seq<u32>,
    pub xdg_wm_bases: Seq<u32>,
    pub settings: LayerSettings,
}

impl View for ProxyState {
    type V = StateView;

    open spec fn view(&self) -> StateView {
        StateView {
            registry_id: self.registry_id,
            advertised_layer_shell_name: self.advertised_layer_shell_name,
            advertised_xdg_wm_base_name: self.advertised_xdg_wm_base_name,
            layer_shell_id: self.layer_shell_id,
            layer_surface_id: self.layer_surface_id,
            xdg_toplevel_id: self.xdg_toplevel_id,
            xdg_decoration_id: self.xdg_decoration_id,
            xdg_toplevel_decoration_id: self.xdg_toplevel_decoration_id,
            client_blacklist_ids: self.client_blacklist_ids@,
            needs_no_csd: self.needs_no_csd,
            xdg_surfaces: self.xdg_surfaces@,
            xdg_wm_bases: self.xdg_wm_bases@,
            settings: self.settings,
        }
    }
}

/// The state at start-up: nothing is known of the client's objects.
pub open spec fn initial_state(needs_no_csd: bool, settings: LayerSettings) -> StateView {
    StateView {
        registry_id: None,
        advertised_layer_shell_name: None,
        advertised_xdg_wm_base_name: None,
        layer_shell_id: None,
        layer_surface_id: None,
        xdg_toplevel_id: None,
        xdg_decoration_id: None,
        xdg_toplevel_decoration_id: None,
        client_blacklist_ids: Seq::empty(),
        needs_no_csd,
        xdg_surfaces: Seq::empty(),
        xdg_wm_bases: Seq::empty(),
        settings,
    }
}

fn copy_ids(v: &Vec<u32>) -> (r: Vec<u32>)
    ensures
        r@ == v@,
{
    let mut r: Vec<u32> = Vec::new();
    let n = v.len();
    let mut i: usize = 0;
    while i < n
        invariant
            n == v@.len(),
            i <= n,
            r@ == v@.subrange(0, i as int),
        decreases n - i,
    {
        r.push(v[i]);
        i = i + 1;
        assert(r@ =~= v@.subrange(0, i as int));
    }
    assert(v@.subrange(0, n as int) =~= v@);
    r
}

/// Whether `x` occurs in `v`.
pub(crate) fn contains_id(v: &Vec<u32>, x: u32) -> (r: bool)
    ensures
        r == v@.contains(x),
{
    let n = v.len();
    let mut i: usize = 0;
    while i < n
        invariant
            n == v@.len(),
            i <= n,
            forall|j: int| 0 <= j < i ==> v@[j] != x,
        decreases n - i,
    {
        if v[i] == x {
            return true;
        }
        i = i + 1;
    }
    false
}

impl ProxyState {
    /// The state at start-up for the given settings: client-side decorations
    /// are forced off unless `allow_csd` is set, and the layer surface gets
    /// the layer, anchors, size and margins of `cli`.
    pub fn new(cli: &Cli) -> (s: ProxyState)
        ensures
            s@ == initial_state(!cli.allow_csd, settings_of(cli)),
    {
        let s = ProxyState {
            registry_id: None,
            advertised_layer_shell_name: None,
            advertised_xdg_wm_base_name: None,
            layer_shell_id: None,
            layer_surface_id: None,
            xdg_toplevel_id: None,
            xdg_decoration_id: None,
            xdg_toplevel_decoration_id: None,
            client_blacklist_ids: Vec::new(),
            needs_no_csd: !cli.allow_csd,
            xdg_surfaces: Vec::new(),
            xdg_wm_bases: Vec::new(),
            settings: cli.layer_settings(),
        };
        assert(s@ =~= initial_state(!cli.allow_csd, settings_of(cli)));
        s
    }

    /// A copy of this state.
    pub fn duplicate(&self) -> (s: ProxyState)
        ensures
            s@ == self@,
    {
        let s = ProxyState {
            registry_id: self.registry_id,
            advertised_layer_shell_name: self.advertised_layer_shell_name,
            advertised_xdg_wm_base_name: self.advertised_xdg_wm_base_name,
            layer_shell_id: self.layer_shell_id,
            layer_surface_id: self.layer_surface_id,
            xdg_toplevel_id: self.xdg_toplevel_id,
            xdg_decoration_id: self.xdg_decoration_id,
            xdg_toplevel_decoration_id: self.xdg_toplevel_decoration_id,
            client_blacklist_ids: copy_ids(&self.client_blacklist_ids),
            needs_no_csd: self.needs_no_csd,
            xdg_surfaces: copy_ids(&self.xdg_surfaces),
            xdg_wm_bases: copy_ids(&self.xdg_wm_bases),
            settings: self.settings,
        };
        assert(s@ =~= self@);
        s
    }
}

/// A request that creates a harmless object at `object_id`, standing in for an
/// object the client asked for that cannot be created: it binds the layer shell
/// global again, on the client's registry.
pub fn create_useless_object(object_id: u32, state: &ProxyState) -> (v: Vec<u8>)
    requires
        state.registry_id is Some,
        state.advertised_layer_shell_name is Some,
    ensures
        v@ == bind_message(
            state.registry_id.unwrap(),
            state.advertised_layer_shell_name.unwrap(),
            object_id,
        ),
{
    bind_layer_shell(
        state.registry_id.unwrap(),
        state.advertised_layer_shell_name.unwrap(),
        object_id,
    )
}

} // verus!
