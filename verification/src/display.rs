//! Display-backend decisions: resource selection, the touch-strip heuristic,
//! property lookup by name, and the atomic commit request.
//!
//! The display subsystem hands back connectors, modes, planes and property
//! lists as driver-assigned numeric handles. Which of them to bind, and with
//! which property values, is decided here on plain values; opening the device
//! node, enumerating the objects and submitting the transaction happen
//! outside the library.

use vstd::prelude::*;
use vstd::string::StringExecFns;

verus! {

/// Why bringing the display (or input, or virtual-key) path up failed.
/// Logical discovery failures are distinguished from transport failures to
/// aid diagnosis; all of them are fatal at startup.
#[derive(Clone, Copy, PartialEq, Eq, Structural, Debug)]
pub enum SetupError {
    /// The device node could not be opened or claimed exclusively.
    DeviceOpenError,
    /// No connector is in the connected state.
    NoConnectedOutput,
    /// The connected connector advertises no mode.
    NoModeAvailable,
    /// The mode's aspect ratio is not elongated enough for a touch strip.
    NotATouchStrip,
    /// No scanout engine or compositing plane is available.
    NoUsablePlane,
    /// An object's property list holds no property of the wanted name.
    PropertyNotFound,
    /// The atomic bind transaction was refused.
    CommitRejected,
}

/// One display mode, as its pixel size: the buffer's short axis (`width`)
/// and long axis (`height`).
#[derive(Clone, Copy, PartialEq, Eq, Structural, Debug)]
pub struct ModeInfo {
    pub width: u16,
    pub height: u16,
}

/// One connector: whether a panel is connected, and its advertised modes in
/// preference order.
pub struct ConnectorInfo {
    pub connected: bool,
    pub modes: Vec<ModeInfo>,
}

/// The touch-strip heuristic: the panel must be at least thirty times as
/// long as it is thick to count as an elongated strip.
pub open spec fn strip_ok(width: int, height: int) -> bool {
    height >= 30 * width
}

/// Decides the touch-strip heuristic for a mode size.
pub fn is_touch_strip(width: u16, height: u16) -> (r: bool)
    ensures
        r == strip_ok(width as int, height as int),
        width >= 1 ==> r == (height as int / width as int >= 30),
{
    proof {
        if width >= 1 {
            let h = height as int;
            let w = width as int;
            vstd::arithmetic::div_mod::lemma_fundamental_div_mod(h, w);
            vstd::arithmetic::div_mod::lemma_mod_bound(h, w);
            if h >= 30 * w {
                vstd::arithmetic::div_mod::lemma_div_is_ordered(30 * w, h, w);
                vstd::arithmetic::div_mod::lemma_div_multiples_vanish(30, w);
                assert(w * 30 == 30 * w);
            }
            if h / w >= 30 {
                vstd::arithmetic::mul::lemma_mul_inequality(30, h / w, w);
                assert(h == w * (h / w) + h % w);
                assert(w * (h / w) == (h / w) * w) by (nonlinear_arith);
            }
        }
    }
    (height as u32) >= 30 * (width as u32)
}

/// What discovery settled on: the first connected connector (by index into
/// the enumerated list) and its preferred mode. The scanout engine and the
/// plane are always the first of their lists.
#[derive(Debug)]
pub struct SelectionPlan {
    pub connector: usize,
    pub mode: ModeInfo,
}

/// No connector before index `i` is connected.
pub open spec fn none_connected_before(conns: Seq<ConnectorInfo>, i: int) -> bool {
    forall|j: int| 0 <= j < i ==> !(#[trigger] conns[j]).connected
}

/// `i` is the first connected connector.
pub open spec fn is_first_connected(conns: Seq<ConnectorInfo>, i: int) -> bool {
    &&& 0 <= i < conns.len()
    &&& conns[i].connected
    &&& none_connected_before(conns, i)
}

/// Picks the display resources, mirroring discovery order: first connected
/// connector, its preferred mode, the strip heuristic, then the existence of
/// a scanout engine and a plane. Each failure is reported as the exact
/// discovery stage that broke.
pub fn select_resources(
    connectors: &Vec<ConnectorInfo>,
    num_crtcs: usize,
    num_planes: usize,
) -> (r: Result<SelectionPlan, SetupError>)
    ensures
        match r {
            Ok(plan) => {
                &&& is_first_connected(connectors@, plan.connector as int)
                &&& connectors@[plan.connector as int].modes@.len() >= 1
                &&& plan.mode == connectors@[plan.connector as int].modes@[0]
                &&& strip_ok(plan.mode.width as int, plan.mode.height as int)
                &&& num_crtcs >= 1
                &&& num_planes >= 1
            },
            Err(e) => match e {
                SetupError::NoConnectedOutput => none_connected_before(
                    connectors@,
                    connectors@.len() as int,
                ),
                SetupError::NoModeAvailable => exists|i: int|
                    is_first_connected(connectors@, i) && connectors@[i].modes@.len() == 0,
                SetupError::NotATouchStrip => exists|i: int|
                    {
                        &&& is_first_connected(connectors@, i)
                        &&& connectors@[i].modes@.len() >= 1
                        &&& !strip_ok(
                            connectors@[i].modes@[0].width as int,
                            connectors@[i].modes@[0].height as int,
                        )
                    },
                SetupError::NoUsablePlane => (num_crtcs == 0 || num_planes == 0) && exists|i: int|
                    {
                        &&& is_first_connected(connectors@, i)
                        &&& connectors@[i].modes@.len() >= 1
                        &&& strip_ok(
                            connectors@[i].modes@[0].width as int,
                            connectors@[i].modes@[0].height as int,
                        )
                    },
                _ => false,
            },
        },
{
    let n = connectors.len();
    let mut i: usize = 0;
    while i < n
        invariant
            i <= n,
            n == connectors@.len(),
            none_connected_before(connectors@, i as int),
        decreases n - i,
    {
        if connectors[i].connected {
            proof {
                assert(is_first_connected(connectors@, i as int));
            }
            let modes = &connectors[i].modes;
            if modes.len() == 0 {
                return Err(SetupError::NoModeAvailable);
            }
            let mode = modes[0];
            if !is_touch_strip(mode.width, mode.height) {
                return Err(SetupError::NotATouchStrip);
            }
            if num_crtcs == 0 || num_planes == 0 {
                return Err(SetupError::NoUsablePlane);
            }
            return Ok(SelectionPlan { connector: i, mode });
        }
        i = i + 1;
    }
    Err(SetupError::NoConnectedOutput)
}

/// No property before index `k` bears the name.
pub open spec fn no_match_before(props: Seq<(u32, String)>, name: Seq<char>, k: int) -> bool {
    forall|j: int| 0 <= j < k ==> (#[trigger] props[j]).1@ != name
}

/// `k` is the first property bearing the name.
pub open spec fn is_first_prop_match(props: Seq<(u32, String)>, name: Seq<char>, k: int) -> bool {
    &&& 0 <= k < props.len()
    &&& props[k].1@ == name
    &&& no_match_before(props, name, k)
}

/// Some property bears the name.
pub open spec fn has_prop(props: Seq<(u32, String)>, name: Seq<char>) -> bool {
    exists|k: int| 0 <= k < props.len() && (#[trigger] props[k]).1@ == name
}

/// `id` is the id of the first property bearing the name.
pub open spec fn found_prop(props: Seq<(u32, String)>, name: Seq<char>, id: u32) -> bool {
    exists|k: int| #[trigger] is_first_prop_match(props, name, k) && props[k].0 == id
}

/// Scans an object's property list — pairs of driver-assigned numeric id and
/// stable human-readable name — for the first property of the given name.
/// Numeric ids are driver- and version-specific, so they are always resolved
/// by name at discovery time, never hardcoded.
pub fn find_prop_id(props: &Vec<(u32, String)>, name: &String) -> (r: Result<u32, SetupError>)
    ensures
        match r {
            Ok(id) => found_prop(props@, name@, id),
            Err(e) => e == SetupError::PropertyNotFound && !has_prop(props@, name@),
        },
{
    let n = props.len();
    let mut k: usize = 0;
    while k < n
        invariant
            k <= n,
            n == props@.len(),
            no_match_before(props@, name@, k as int),
        decreases n - k,
    {
        if props[k].1 == *name {
            proof {
                assert(is_first_prop_match(props@, name@, k as int));
            }
            return Ok(props[k].0);
        }
        k = k + 1;
    }
    Err(SetupError::PropertyNotFound)
}

/// The property ids the bind transaction needs, resolved by name: one on the
/// connector, two on the scanout engine, ten on the plane.
#[derive(Debug)]
pub struct ResolvedProps {
    pub conn_crtc_id: u32,
    pub crtc_mode_id: u32,
    pub crtc_active: u32,
    pub plane_fb_id: u32,
    pub plane_crtc_id: u32,
    pub plane_src_x: u32,
    pub plane_src_y: u32,
    pub plane_src_w: u32,
    pub plane_src_h: u32,
    pub plane_crtc_x: u32,
    pub plane_crtc_y: u32,
    pub plane_crtc_w: u32,
    pub plane_crtc_h: u32,
}

/// All thirteen bind-transaction properties are resolvable on their objects.
pub open spec fn all_props_present(
    conn_props: Seq<(u32, String)>,
    crtc_props: Seq<(u32, String)>,
    plane_props: Seq<(u32, String)>,
) -> bool {
    &&& has_prop(conn_props, "CRTC_ID"@)
    &&& has_prop(crtc_props, "MODE_ID"@)
    &&& has_prop(crtc_props, "ACTIVE"@)
    &&& has_prop(plane_props, "FB_ID"@)
    &&& has_prop(plane_props, "CRTC_ID"@)
    &&& has_prop(plane_props, "SRC_X"@)
    &&& has_prop(plane_props, "SRC_Y"@)
    &&& has_prop(plane_props, "SRC_W"@)
    &&& has_prop(plane_props, "SRC_H"@)
    &&& has_prop(plane_props, "CRTC_X"@)
    &&& has_prop(plane_props, "CRTC_Y"@)
    &&& has_prop(plane_props, "CRTC_W"@)
    &&& has_prop(plane_props, "CRTC_H"@)
}

/// The resolved ids are the first-match ids of the thirteen names.
pub open spec fn props_resolved(
    conn_props: Seq<(u32, String)>,
    crtc_props: Seq<(u32, String)>,
    plane_props: Seq<(u32, String)>,
    ids: ResolvedProps,
) -> bool {
    &&& found_prop(conn_props, "CRTC_ID"@, ids.conn_crtc_id)
    &&& found_prop(crtc_props, "MODE_ID"@, ids.crtc_mode_id)
    &&& found_prop(crtc_props, "ACTIVE"@, ids.crtc_active)
    &&& found_prop(plane_props, "FB_ID"@, ids.plane_fb_id)
    &&& found_prop(plane_props, "CRTC_ID"@, ids.plane_crtc_id)
    &&& found_prop(plane_props, "SRC_X"@, ids.plane_src_x)
    &&& found_prop(plane_props, "SRC_Y"@, ids.plane_src_y)
    &&& found_prop(plane_props, "SRC_W"@, ids.plane_src_w)
    &&& found_prop(plane_props, "SRC_H"@, ids.plane_src_h)
    &&& found_prop(plane_props, "CRTC_X"@, ids.plane_crtc_x)
    &&& found_prop(plane_props, "CRTC_Y"@, ids.plane_crtc_y)
    &&& found_prop(plane_props, "CRTC_W"@, ids.plane_crtc_w)
    &&& found_prop(plane_props, "CRTC_H"@, ids.plane_crtc_h)
}

/// Resolves every property id the bind transaction needs, by scanning the
/// three objects' property lists for the stable names.
pub fn resolve_prop_ids(
    conn_props: &Vec<(u32, String)>,
    crtc_props: &Vec<(u32, String)>,
    plane_props: &Vec<(u32, String)>,
) -> (r: Result<ResolvedProps, SetupError>)
    ensures
        match r {
            Ok(ids) => props_resolved(conn_props@, crtc_props@, plane_props@, ids),
            Err(e) => e == SetupError::PropertyNotFound && !all_props_present(
                conn_props@,
                crtc_props@,
                plane_props@,
            ),
        },
{
    let conn_crtc_id = match find_prop_id(conn_props, &String::from_str("CRTC_ID")) {
        Ok(id) => id,
        Err(e) => {
            return Err(e);
        },
    };
    let crtc_mode_id = match find_prop_id(crtc_props, &String::from_str("MODE_ID")) {
        Ok(id) => id,
        Err(e) => {
            return Err(e);
        },
    };
    let crtc_active = match find_prop_id(crtc_props, &String::from_str("ACTIVE")) {
        Ok(id) => id,
        Err(e) => {
            return Err(e);
        },
    };
    let plane_fb_id = match find_prop_id(plane_props, &String::from_str("FB_ID")) {
        Ok(id) => id,
        Err(e) => {
            return Err(e);
        },
    };
    let plane_crtc_id = match find_prop_id(plane_props, &String::from_str("CRTC_ID")) {
        Ok(id) => id,
        Err(e) => {
            return Err(e);
        },
    };
    let plane_src_x = match find_prop_id(plane_props, &String::from_str("SRC_X")) {
        Ok(id) => id,
        Err(e) => {
            return Err(e);
        },
    };
    let plane_src_y = match find_prop_id(plane_props, &String::from_str("SRC_Y")) {
        Ok(id) => id,
        Err(e) => {
            return Err(e);
        },
    };
    let plane_src_w = match find_prop_id(plane_props, &String::from_str("SRC_W")) {
        Ok(id) => id,
        Err(e) => {
            return Err(e);
        },
    };
    let plane_src_h = match find_prop_id(plane_props, &String::from_str("SRC_H")) {
        Ok(id) => id,
        Err(e) => {
            return Err(e);
        },
    };
    let plane_crtc_x = match find_prop_id(plane_props, &String::from_str("CRTC_X")) {
        Ok(id) => id,
        Err(e) => {
            return Err(e);
        },
    };
    let plane_crtc_y = match find_prop_id(plane_props, &String::from_str("CRTC_Y")) {
        Ok(id) => id,
        Err(e) => {
            return Err(e);
        },
    };
    let plane_crtc_w = match find_prop_id(plane_props, &String::from_str("CRTC_W")) {
        Ok(id) => id,
        Err(e) => {
            return Err(e);
        },
    };
    let plane_crtc_h = match find_prop_id(plane_props, &String::from_str("CRTC_H")) {
        Ok(id) => id,
        Err(e) => {
            return Err(e);
        },
    };
    Ok(
        ResolvedProps {
            conn_crtc_id,
            crtc_mode_id,
            crtc_active,
            plane_fb_id,
            plane_crtc_id,
            plane_src_x,
            plane_src_y,
            plane_src_w,
            plane_src_h,
            plane_crtc_x,
            plane_crtc_y,
            plane_crtc_w,
            plane_crtc_h,
        },
    )
}

/// A property value to write in the bind transaction, typed as the display
/// subsystem types them.
#[derive(Clone, Copy, PartialEq, Eq, Structural, Debug)]
pub enum PropValue {
    Crtc(Option<u32>),
    Blob(u64),
    Boolean(bool),
    Framebuffer(Option<u32>),
    UnsignedRange(u64),
    SignedRange(i64),
}

/// One `(object, property, value)` triple of the bind transaction.
#[derive(Clone, Copy, PartialEq, Eq, Structural, Debug)]
pub struct PropAssignment {
    pub object: u32,
    pub prop: u32,
    pub value: PropValue,
}

/// The one atomic bind transaction, built once at startup: connector to
/// scanout engine, engine to mode blob and active, plane to engine and
/// framebuffer, source rectangle the full mode size in 16.16 fixed point,
/// destination rectangle the full mode size at the origin.
pub open spec fn commit_request_spec(
    connector: u32,
    crtc: u32,
    plane: u32,
    fb: u32,
    mode_blob: u64,
    mode_w: u16,
    mode_h: u16,
    ids: ResolvedProps,
) -> Seq<PropAssignment> {
    seq![
        (PropAssignment {
            object: connector,
            prop: ids.conn_crtc_id,
            value: PropValue::Crtc(Some(crtc)),
        }),
        (PropAssignment { object: crtc, prop: ids.crtc_mode_id, value: PropValue::Blob(mode_blob) }),
        (PropAssignment { object: crtc, prop: ids.crtc_active, value: PropValue::Boolean(true) }),
        (PropAssignment {
            object: plane,
            prop: ids.plane_fb_id,
            value: PropValue::Framebuffer(Some(fb)),
        }),
        (PropAssignment {
            object: plane,
            prop: ids.plane_crtc_id,
            value: PropValue::Crtc(Some(crtc)),
        }),
        (PropAssignment { object: plane, prop: ids.plane_src_x, value: PropValue::UnsignedRange(0) }),
        (PropAssignment { object: plane, prop: ids.plane_src_y, value: PropValue::UnsignedRange(0) }),
        (PropAssignment {
            object: plane,
            prop: ids.plane_src_w,
            value: PropValue::UnsignedRange((mode_w as u64) << 16),
        }),
        (PropAssignment {
            object: plane,
            prop: ids.plane_src_h,
            value: PropValue::UnsignedRange((mode_h as u64) << 16),
        }),
        (PropAssignment { object: plane, prop: ids.plane_crtc_x, value: PropValue::SignedRange(0) }),
        (PropAssignment { object: plane, prop: ids.plane_crtc_y, value: PropValue::SignedRange(0) }),
        (PropAssignment {
            object: plane,
            prop: ids.plane_crtc_w,
            value: PropValue::UnsignedRange(mode_w as u64),
        }),
        (PropAssignment {
            object: plane,
            prop: ids.plane_crtc_h,
            value: PropValue::UnsignedRange(mode_h as u64),
        }),
    ]
}

/// Builds the atomic bind transaction, exactly as [`commit_request_spec`]
/// lays it out. It is submitted outside the library with the full-modeset
/// permission flag; after it succeeds, only buffer copies and dirty-region
/// marks reach the hardware.
pub fn build_commit_request(
    connector: u32,
    crtc: u32,
    plane: u32,
    fb: u32,
    mode_blob: u64,
    mode_w: u16,
    mode_h: u16,
    ids: &ResolvedProps,
) -> (r: Vec<PropAssignment>)
    ensures
        r@ == commit_request_spec(connector, crtc, plane, fb, mode_blob, mode_w, mode_h, *ids),
{
    let mut r: Vec<PropAssignment> = Vec::new();
    r.push(PropAssignment {
        object: connector,
        prop: ids.conn_crtc_id,
        value: PropValue::Crtc(Some(crtc)),
    });
    r.push(PropAssignment {
        object: crtc,
        prop: ids.crtc_mode_id,
        value: PropValue::Blob(mode_blob),
    });
    r.push(PropAssignment {
        object: crtc,
        prop: ids.crtc_active,
        value: PropValue::Boolean(true),
    });
    r.push(PropAssignment {
        object: plane,
        prop: ids.plane_fb_id,
        value: PropValue::Framebuffer(Some(fb)),
    });
    r.push(PropAssignment {
        object: plane,
        prop: ids.plane_crtc_id,
        value: PropValue::Crtc(Some(crtc)),
    });
    r.push(PropAssignment {
        object: plane,
        prop: ids.plane_src_x,
        value: PropValue::UnsignedRange(0),
    });
    r.push(PropAssignment {
        object: plane,
        prop: ids.plane_src_y,
        value: PropValue::UnsignedRange(0),
    });
    r.push(PropAssignment {
        object: plane,
        prop: ids.plane_src_w,
        value: PropValue::UnsignedRange((mode_w as u64) << 16),
    });
    r.push(PropAssignment {
        object: plane,
        prop: ids.plane_src_h,
        value: PropValue::UnsignedRange((mode_h as u64) << 16),
    });
    r.push(PropAssignment {
        object: plane,
        prop: ids.plane_crtc_x,
        value: PropValue::SignedRange(0),
    });
    r.push(PropAssignment {
        object: plane,
        prop: ids.plane_crtc_y,
        value: PropValue::SignedRange(0),
    });
    r.push(PropAssignment {
        object: plane,
        prop: ids.plane_crtc_w,
        value: PropValue::UnsignedRange(mode_w as u64),
    });
    r.push(PropAssignment {
        object: plane,
        prop: ids.plane_crtc_h,
        value: PropValue::UnsignedRange(mode_h as u64),
    });
    proof {
        assert(r@ =~= commit_request_spec(
            connector,
            crtc,
            plane,
            fb,
            mode_blob,
            mode_w,
            mode_h,
            *ids,
        ));
    }
    r
}

} // verus!
