//! The fixed catalogue of celestial bodies: a star, eight planets and one
//! dwarf planet, with their state at the epoch of Jan-1-2000 00:00, in a
//! static reference frame centred on the star's position at that epoch.
use vstd::prelude::*;

verus! {

use crate::fixed_point::SolarFp;
use crate::fixed_point::trusted_decode;
use crate::fixed_point::valid_trusted_bits;
use crate::vec3d::SolarVec3D;
use crate::vec3d::StepVec3D;

/// The number of bodies in the catalogue.
pub const N_BODIES: usize = 10;

/// The capacity of a body's influencer list, generous for a ten-body
/// system.
pub const INFLUENCER_CAPACITY: usize = 20;

#[verifier::external_type_specification]
#[verifier::external_body]
#[verifier::reject_recursive_types(T)]
pub struct ExArrayVec<T, const CAP: usize>(arrayvec::ArrayVec<T, CAP>);

/// The ids held by an influencer list, in insertion order.
pub uninterp spec fn influencer_ids(v: arrayvec::ArrayVec<usize, 20>) -> Seq<usize>;

/// Relies on `arrayvec::ArrayVec::new_const`: a freshly made vector holds
/// nothing.
#[verifier::external_body]
fn influencers_new() -> (r: arrayvec::ArrayVec<usize, 20>)
    ensures
        influencer_ids(r) == Seq::<usize>::empty(),
{
    arrayvec::ArrayVec::new_const()
}

/// Relies on `arrayvec::ArrayVec`'s `Clone`: the clone holds the same
/// elements in the same order.
#[verifier::external_body]
pub(crate) fn influencers_clone(v: &arrayvec::ArrayVec<usize, 20>) -> (r: arrayvec::ArrayVec<
    usize,
    20,
>)
    ensures
        influencer_ids(r) == influencer_ids(*v),
{
    v.clone()
}

/// Relies on `arrayvec::ArrayVec::push`: appends one element at the end;
/// the precondition keeps it below the capacity, where `push` would panic.
#[verifier::external_body]
fn influencers_push(v: &mut arrayvec::ArrayVec<usize, 20>, id: usize)
    requires
        influencer_ids(*old(v)).len() < 20,
    ensures
        influencer_ids(*final(v)) == influencer_ids(*old(v)).push(id),
{
    v.push(id)
}

/// A scaled gravitational parameter `G * M`, stored as
/// `mantissa * 2^scale` so that the star (scale 20), the gas giants
/// (scale 10) and the small bodies (scale 0) all fit precisely in one
/// fixed-point range.
#[derive(Clone, Copy, Debug)]
pub struct Gravity {
    pub stored_solar: SolarFp,
    pub scale: u8,
}

/// One celestial body: its identity, gravitational parameter, live
/// position and velocity, parent body, and the precomputed list of bodies
/// whose gravity is structurally expected to matter to it.
pub struct Body {
    pub name: &'static str,
    pub gravity: Gravity,
    pub position: SolarVec3D,
    pub velocity: StepVec3D,
    pub parent_id: Option<usize>,
    pub orbit_influencers: arrayvec::ArrayVec<usize, 20>,
    pub id: usize,
}

/// Body `i` structurally influences a body when it is its parent, a
/// sibling (an *other* body sharing the same parent), or a child.
pub open spec fn influences(
    me_parent: Option<usize>,
    me_id: usize,
    other_parent: Option<usize>,
    i: usize,
) -> bool {
    Some(i) == me_parent || (i != me_id && other_parent == me_parent) || other_parent == Some(
        me_id,
    )
}

/// The ids below `upto` that influence the body, in ascending order.
pub open spec fn influencer_seq(
    parents: Seq<Option<usize>>,
    me_parent: Option<usize>,
    me_id: usize,
    upto: int,
) -> Seq<usize>
    decreases upto,
{
    if upto <= 0 {
        Seq::empty()
    } else {
        let pre = influencer_seq(parents, me_parent, me_id, upto - 1);
        if influences(me_parent, me_id, parents[upto - 1], (upto - 1) as usize) {
            pre.push((upto - 1) as usize)
        } else {
            pre
        }
    }
}

/// The influencer selection never returns more ids than it examined.
proof fn lemma_influencer_seq_len(
    parents: Seq<Option<usize>>,
    me_parent: Option<usize>,
    me_id: usize,
    upto: int,
)
    requires
        upto >= 0,
    ensures
        influencer_seq(parents, me_parent, me_id, upto).len() <= upto,
    decreases upto,
{
    if upto > 0 {
        lemma_influencer_seq_len(parents, me_parent, me_id, upto - 1);
    }
}

/// The parent ids of a body list, in order.
pub open spec fn parent_ids(list: Seq<Body>) -> Seq<Option<usize>> {
    list.map_values(|b: Body| b.parent_id)
}

impl Body {
    /// Collects the ids of this body's parent, siblings and children from
    /// the catalogue into its influencer list, in ascending order.  The
    /// present integrator does not consult this list when summing
    /// gravitational acceleration; it exists for future locality-based
    /// force approximation.
    pub fn fill_influencers(&mut self, body_list: &[Body; 10])
        requires
            influencer_ids(old(self).orbit_influencers).len() + 10 <= 20,
        ensures
            influencer_ids(final(self).orbit_influencers) == influencer_ids(
                old(self).orbit_influencers,
            ) + influencer_seq(
                parent_ids(body_list@),
                old(self).parent_id,
                old(self).id,
                10,
            ),
            final(self).name == old(self).name,
            final(self).gravity == old(self).gravity,
            final(self).position == old(self).position,
            final(self).velocity == old(self).velocity,
            final(self).parent_id == old(self).parent_id,
            final(self).id == old(self).id,
    {
        let ghost orig = influencer_ids(self.orbit_influencers);
        let ghost parents = parent_ids(body_list@);
        let mut i: usize = 0;
        while i < 10
            invariant
                i <= 10,
                orig.len() + 10 <= 20,
                influencer_ids(self.orbit_influencers) == orig + influencer_seq(
                    parents,
                    self.parent_id,
                    self.id,
                    i as int,
                ),
                parents == parent_ids(body_list@),
                self.parent_id == old(self).parent_id,
                self.id == old(self).id,
                self.name == old(self).name,
                self.gravity == old(self).gravity,
                self.position == old(self).position,
                self.velocity == old(self).velocity,
            decreases 10 - i,
        {
            let body = &body_list[i];
            let is_parent = match self.parent_id {
                Some(p) => p == i,
                None => false,
            };
            let is_sibling = i != self.id && match (body.parent_id, self.parent_id) {
                (Some(a), Some(b)) => a == b,
                (None, None) => true,
                _ => false,
            };
            let is_child = match body.parent_id {
                Some(p) => p == self.id,
                None => false,
            };
            proof {
                lemma_influencer_seq_len(parents, self.parent_id, self.id, i as int);
                assert(parents[i as int] == body_list@[i as int].parent_id);
            }
            if is_parent || is_sibling || is_child {
                influencers_push(&mut self.orbit_influencers, i);
            }
            i = i + 1;
        }
    }
}

/// Builds one non-star body from hand-verified IEEE-754 bit literals,
/// with an empty influencer list and its parent set.
fn body_with(
    name: &'static str,
    gravity_bits: u64,
    scale: u8,
    px: u64,
    py: u64,
    pz: u64,
    vx: u64,
    vy: u64,
    vz: u64,
    parent_id: usize,
    id: usize,
) -> (r: Body)
    requires
        valid_trusted_bits(gravity_bits, 6),
        valid_trusted_bits(px, 6),
        valid_trusted_bits(py, 6),
        valid_trusted_bits(pz, 6),
        valid_trusted_bits(vx, 40),
        valid_trusted_bits(vy, 40),
        valid_trusted_bits(vz, 40),
    ensures
        r.name == name,
        r.gravity.stored_solar@ == trusted_decode(gravity_bits, 6),
        r.gravity.scale == scale,
        r.position@ == (trusted_decode(px, 6), trusted_decode(py, 6), trusted_decode(pz, 6)),
        r.velocity@ == (trusted_decode(vx, 40), trusted_decode(vy, 40), trusted_decode(vz, 40)),
        r.parent_id == Some(parent_id),
        r.id == id,
        influencer_ids(r.orbit_influencers) == Seq::<usize>::empty(),
{
    Body {
        name,
        gravity: Gravity { stored_solar: SolarFp::from_f64_bits_trusted(gravity_bits), scale },
        position: SolarVec3D::from_floats_bits_trusted(px, py, pz),
        velocity: StepVec3D::from_floats_bits_trusted(vx, vy, vz),
        parent_id: Some(parent_id),
        orbit_influencers: influencers_new(),
        id,
    }
}

/// The catalogue's epoch data for the body with id `i`: its name, its
/// gravitational parameter (mantissa decoded from the hand-verified bit
/// literal, with its scale), its position and velocity at the epoch,
/// and its parent.
pub open spec fn catalogue_entry_ok(b: Body, i: int) -> bool {
    if i == 0 {
        &&& b.name@ == "Sol"@
        &&& b.gravity.stored_solar@ == trusted_decode(0x42DC_C6A5_288B_0000, 6)
        &&& b.gravity.scale == 20
        &&& b.position@ == (0int, 0int, 0int)
        &&& b.velocity@ == (0int, 0int, 0int)
        &&& b.parent_id is None
        &&& b.id == 0
    } else if i == 1 {
        &&& b.name@ == "Mercury"@
        &&& b.gravity.stored_solar@ == trusted_decode(0x42B4_0B01_5BF7_0000, 6)
        &&& b.gravity.scale == 0
        &&& b.position@ == (
            trusted_decode(0xC213_9B56_0441_C347, 6),
            trusted_decode(0xC22E_EC49_C455_1190, 6),
            trusted_decode(0xC1EA_054F_DF52_7CAF, 6),
        )
        &&& b.velocity@ == (
            trusted_decode(0x40E1_E59F_95D8_D572, 40),
            trusted_decode(0xC0C8_00EB_45DB_B026, 40),
            trusted_decode(0xC0B1_102C_4C1A_6F3E, 40),
        )
        &&& b.parent_id == Some(0usize)
        &&& b.id == 1
    } else if i == 2 {
        &&& b.name@ == "Venus"@
        &&& b.gravity.stored_solar@ == trusted_decode(0x42F2_7844_3995_8000, 6)
        &&& b.gravity.scale == 0
        &&& b.position@ == (
            trusted_decode(0xC239_07D4_83BF_FC29, 6),
            trusted_decode(0xC1E9_1520_EB50_B731, 6),
            trusted_decode(0x41F6_F1E3_C4D3_D321, 6),
        )
        &&& b.velocity@ == (
            trusted_decode(0x408B_C947_3DDD_ACBE, 40),
            trusted_decode(0xC0E1_2AE6_A5D1_3FA4, 40),
            trusted_decode(0xC080_9EE0_1918_42D6, 40),
        )
        &&& b.parent_id == Some(0usize)
        &&& b.id == 2
    } else if i == 3 {
        &&& b.name@ == "Earth"@
        &&& b.gravity.stored_solar@ == trusted_decode(0x42F6_A609_3747_C000, 6)
        &&& b.gravity.scale == 0
        &&& b.position@ == (
            trusted_decode(0xC217_7AC0_F6BB_F968, 6),
            trusted_decode(0x4240_DF30_46EF_E67A, 6),
            trusted_decode(0xC122_CFC1_24D0_1C00, 6),
        )
        &&& b.velocity@ == (
            trusted_decode(0xC0DD_23F5_5563_C8DD, 40),
            trusted_decode(0xC0B4_57A2_476D_AAB2, 40),
            trusted_decode(0x3FAF_9519_6712_7C00, 40),
        )
        &&& b.parent_id == Some(0usize)
        &&& b.id == 3
    } else if i == 4 {
        &&& b.name@ == "Mars"@
        &&& b.gravity.stored_solar@ == trusted_decode(0x42C3_6E28_B0B6_8000, 6)
        &&& b.gravity.scale == 0
        &&& b.position@ == (
            trusted_decode(0x4248_36BC_55C3_CEFD, 6),
            trusted_decode(0xC1E7_6AD0_B63E_28E9, 6),
            trusted_decode(0xC1F3_4ADE_E3B7_D20C, 6),
        )
        &&& b.velocity@ == (
            trusted_decode(0x4094_3C03_A364_305B, 40),
            trusted_decode(0x40D9_AD9A_EC3F_A462, 40),
            trusted_decode(0x4080_3813_F5AB_95BC, 40),
        )
        &&& b.parent_id == Some(0usize)
        &&& b.id == 4
    } else if i == 5 {
        &&& b.name@ == "Jupiter"@
        &&& b.gravity.stored_solar@ == trusted_decode(0x42DC_0231_BD45_8000, 6)
        &&& b.gravity.scale == 10
        &&& b.position@ == (
            trusted_decode(0x4261_6E38_937F_844D, 6),
            trusted_decode(0x4259_8F6F_BB09_1EFB, 6),
            trusted_decode(0xC20C_5F6D_5532_09BA, 6),
        )
        &&& b.velocity@ == (
            trusted_decode(0xC0BE_DDF0_010E_B819, 40),
            trusted_decode(0x40C5_CD96_A8F9_C4F9, 40),
            trusted_decode(0x4060_558A_F9E9_FEDA, 40),
        )
        &&& b.parent_id == Some(0usize)
        &&& b.id == 5
    } else if i == 6 {
        &&& b.name@ == "Saturn"@
        &&& b.gravity.stored_solar@ == trusted_decode(0x42C0_D823_D2D5_0000, 6)
        &&& b.gravity.scale == 10
        &&& b.position@ == (
            trusted_decode(0x426B_E6EB_38B2_AA3C, 6),
            trusted_decode(0x426C_98AE_692B_59F8, 6),
            trusted_decode(0xC229_B6D0_B170_8357, 6),
        )
        &&& b.velocity@ == (
            trusted_decode(0xC0BD_04E2_BBF3_8B44, 40),
            trusted_decode(0x40BA_52D0_7214_AAB6, 40),
            trusted_decode(0x4066_3542_7157_BF0E, 40),
        )
        &&& b.parent_id == Some(0usize)
        &&& b.id == 6
    } else if i == 7 {
        &&& b.name@ == "Uranus"@
        &&& b.gravity.stored_solar@ == trusted_decode(0x4294_9586_8BEE_0000, 6)
        &&& b.gravity.scale == 10
        &&& b.position@ == (
            trusted_decode(0x427F_6A0F_C70E_FAFE, 6),
            trusted_decode(0xC27D_E6D2_3F2E_CFA6, 6),
            trusted_decode(0xC220_96AB_7E05_EF50, 6),
        )
        &&& b.velocity@ == (
            trusted_decode(0x40B2_1DA5_CAA8_2BE8, 40),
            trusted_decode(0x40B2_1331_1BEA_08A4, 40),
            trusted_decode(0xC045_6D81_BD1F_B1AD, 40),
        )
        &&& b.parent_id == Some(0usize)
        &&& b.id == 7
    } else if i == 8 {
        &&& b.name@ == "Neptune"@
        &&& b.gravity.stored_solar@ == trusted_decode(0x4298_4832_438E_0000, 6)
        &&& b.gravity.scale == 10
        &&& b.position@ == (
            trusted_decode(0x4282_4C47_A00C_D80A, 6),
            trusted_decode(0xC28B_3425_6044_9577, 6),
            trusted_decode(0x4211_BB59_271D_04D5, 6),
        )
        &&& b.velocity@ == (
            trusted_decode(0x40B1_71CD_7982_E67F, 40),
            trusted_decode(0x40A8_075D_5905_DF81, 40),
            trusted_decode(0xC064_D21E_7DD1_099E, 40),
        )
        &&& b.parent_id == Some(0usize)
        &&& b.id == 8
    } else if i == 9 {
        &&& b.name@ == "Pluto"@
        &&& b.gravity.stored_solar@ == trusted_decode(0x4269_6314_F420_0000, 6)
        &&& b.gravity.scale == 0
        &&& b.position@ == (
            trusted_decode(0xC275_8055_502A_63B2, 6),
            trusted_decode(0xC28E_6E70_7981_1A1F, 6),
            trusted_decode(0x4269_7943_C223_AE84, 6),
        )
        &&& b.velocity@ == (
            trusted_decode(0x40B4_8DE7_3BF3_AD22, 40),
            trusted_decode(0xC0A4_B1DF_ACA5_1A62, 40),
            trusted_decode(0xC093_676D_1DCE_2E49, 40),
        )
        &&& b.parent_id == Some(0usize)
        &&& b.id == 9
    } else {
        false
    }
}

/// The catalogue entry with id `i`, at the epoch, with an empty
/// influencer list: the star at the origin, then the planets and the
/// dwarf planet, ordered by distance.
pub fn catalogue_body(i: usize) -> (r: Body)
    requires
        i < 10,
    ensures
        catalogue_entry_ok(r, i as int),
        r.id == i,
        influencer_ids(r.orbit_influencers) == Seq::<usize>::empty(),
        i == 0 <==> r.parent_id is None,
        i > 0 ==> r.parent_id == Some(0usize),
{
    if i == 0 {
        return Body {
        name: "Sol",
        gravity: Gravity {
            // 1.26558e14, scaled down by 2^20
            stored_solar: SolarFp::from_f64_bits_trusted(0x42DC_C6A5_288B_0000),
            scale: 20,
        },
        position: SolarVec3D::new(),
        velocity: StepVec3D::new(),
        parent_id: None,
        orbit_influencers: influencers_new(),
        id: 0,
        };
    }
    if i == 1 {
        return body_with(
        "Mercury",
        0x42B4_0B01_5BF7_0000,  // 2.20375e13
        0,
        0xC213_9B56_0441_C347,  // -2.10526210724407e10
        0xC22E_EC49_C455_1190,  // -6.64066381225343e10
        0xC1EA_054F_DF52_7CAF,  // -3.49244594657772e9
        0x40E1_E59F_95D8_D572,  // 3.665298704187096e4
        0xC0C8_00EB_45DB_B026,  // -1.228983806940175e4
        0xC0B1_102C_4C1A_6F3E,  // -4.36817303624359e3
        0,
        1,
        );
    }
    if i == 2 {
        return body_with(
        "Venus",
        0x42F2_7844_3995_8000,  // 3.24924e14
        0,
        0xC239_07D4_83BF_FC29,  // -1.07505550271985e11
        0xC1E9_1520_EB50_B731,  // -3.366520666522362e9
        0x41F6_F1E3_C4D3_D321,  // 6.159219789239045e9
        0x408B_C947_3DDD_ACBE,  // 8.891597859686224e2
        0xC0E1_2AE6_A5D1_3FA4,  // -3.515920774137907e4
        0xC080_9EE0_1918_42D6,  // -5.318594228644749e2
        0,
        2,
        );
    }
    if i == 3 {
        return body_with(
        "Earth",
        0x42F6_A609_3747_C000,  // 3.98438e14
        0,
        0xC217_7AC0_F6BB_F968,  // -2.521092855899356e10
        0x4240_DF30_46EF_E67A,  // 1.449279195838006e11
        0xC122_CFC1_24D0_1C00,  // -6.164165719002485e5
        0xC0DD_23F5_5563_C8DD,  // -2.983983333677879e4
        0xC0B4_57A2_476D_AAB2,  // -5.207633902410673e3
        0x3FAF_9519_6712_7C00,  // 6.168441184239981e-2
        0,
        3,
        );
    }
    if i == 4 {
        return body_with(
        "Mars",
        0x42C3_6E28_B0B6_8000,  // 4.27277e13
        0,
        0x4248_36BC_55C3_CEFD,  // 2.079950549836171e11
        0xC1E7_6AD0_B63E_28E9,  // -3.143009713942494e9
        0xC1F3_4ADE_E3B7_D20C,  // -5.178781243488781e9
        0x4094_3C03_A364_305B,  // 1.295003552976085e3
        0x40D9_AD9A_EC3F_A462,  // 2.629442066947034e4
        0x4080_3813_F5AB_95BC,  // 5.190097459225722e2
        0,
        4,
        );
    }
    if i == 5 {
        return body_with(
        "Jupiter",
        0x42DC_0231_BD45_8000,  // 1.23183e14, scaled down by 2^10
        10,
        0x4261_6E38_937F_844D,  // 5.989091645401344e11
        0x4259_8F6F_BB09_1EFB,  // 4.391225866604841e11
        0xC20C_5F6D_5532_09BA,  // -1.523251063025475e10
        0xC0BE_DDF0_010E_B819,  // -7.901937516136118e3
        0x40C5_CD96_A8F9_C4F9,  // 1.116317703172796e4
        0x4060_558A_F9E9_FEDA,  // 1.30673214871428e2
        0,
        5,
        );
    }
    if i == 6 {
        return body_with(
        "Saturn",
        0x42C0_D823_D2D5_0000,  // 3.7041e13, scaled down by 2^10
        10,
        0x426B_E6EB_38B2_AA3C,  // 9.587063371733198e11
        0x426C_98AE_692B_59F8,  // 9.825652104588115e11
        0xC229_B6D0_B170_8357,  // -5.522065631225652e10
        0xC0BD_04E2_BBF3_8B44,  // -7.428885680409909e3
        0x40BA_52D0_7214_AAB6,  // 6.738814240733793e3
        0x4066_3542_7157_BF0E,  // 1.776643606866641e2
        0,
        6,
        );
    }
    if i == 7 {
        return body_with(
        "Uranus",
        0x4294_9586_8BEE_0000,  // 5.65811e12, scaled down by 2^10
        10,
        0x427F_6A0F_C70E_FAFE,  // 2.158774481135687e12
        0xC27D_E6D2_3F2E_CFA6,  // -2.054825439980978e12
        0xC220_96AB_7E05_EF50,  // -3.562364902696741e10
        0x40B2_1DA5_CAA8_2BE8,  // 4.637647623549194e3
        0x40B2_1331_1BEA_08A4,  // 4.627191832186803e3
        0xC045_6D81_BD1F_B1AD,  // -4.285552181289254e1
        0,
        7,
        );
    }
    if i == 8 {
        return body_with(
        "Neptune",
        0x4298_4832_438E_0000,  // 6.67459e12, scaled down by 2^10
        10,
        0x4282_4C47_A00C_D80A,  // 2.514853560731005e12
        0xC28B_3425_6044_9577,  // -3.738847414418683e12
        0x4211_BB59_271D_04D5,  // 1.903940653525472e10
        0x40B1_71CD_7982_E67F,  // 4.465802635365747e3
        0x40A8_075D_5905_DF81,  // 3.075682319816144e3
        0xC064_D21E_7DD1_099E,  // -1.665662221033826e2
        0,
        8,
        );
    }
    if i == 9 {
        return body_with(
        "Pluto",
        0x4269_6314_F420_0000,  // 8.72292e11
        0,
        0xC275_8055_502A_63B2,  // -1.477558207142231e12
        0xC28E_6E70_7981_1A1F,  // -4.182460280867265e12
        0x4269_7943_C223_AE84,  // 8.752693291814536e11
        0x40B4_8DE7_3BF3_AD22,  // 5.261903258542794e3
        0xC0A4_B1DF_ACA5_1A62,  // -2.648936864051314e3
        0xC093_676D_1DCE_2E49,  // -1.241856559011054e3
        0,
        9,
        );
    }
    body_with(
        "Pluto",
        0x4269_6314_F420_0000,
        0,
        0xC275_8055_502A_63B2,
        0xC28E_6E70_7981_1A1F,
        0x4269_7943_C223_AE84,
        0x40B4_8DE7_3BF3_AD22,
        0xC0A4_B1DF_ACA5_1A62,
        0xC093_676D_1DCE_2E49,
        0,
        9,
    )
}

/// The whole catalogue at the epoch, in id order.
pub fn initial_bodies() -> (r: [Body; 10])
    ensures
        forall|i: int|
            0 <= i < 10 ==> {
                &&& catalogue_entry_ok(#[trigger] r@[i], i)
                &&& r@[i].id == i
                &&& influencer_ids(r@[i].orbit_influencers) == Seq::<usize>::empty()
                &&& (i == 0 <==> r@[i].parent_id is None)
                &&& (i > 0 ==> r@[i].parent_id == Some(0usize))
            },
{
    [
        catalogue_body(0),
        catalogue_body(1),
        catalogue_body(2),
        catalogue_body(3),
        catalogue_body(4),
        catalogue_body(5),
        catalogue_body(6),
        catalogue_body(7),
        catalogue_body(8),
        catalogue_body(9),
    ]
}

} // verus!
