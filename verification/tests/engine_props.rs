use mnad::circuit::{BipoleKind, Circuit, CircuitError};
use mnad::solver::{MatrixBuilder, MatrixError, MatrixEvaluator};
use mnad::types::{Precision, Scalar};

/// Double-precision scalar backed by a plain dense LU with partial pivoting.
#[derive(Clone, Copy, Debug, PartialEq)]
struct S64(f64);

/// Single-precision scalar backed by the same routine in f32 arithmetic.
#[derive(Clone, Copy, Debug, PartialEq)]
struct S32(f32);

impl Scalar for S64 {
    fn spec_zero() -> S64 {
        S64(0.0)
    }
    fn spec_one() -> S64 {
        S64(1.0)
    }
    fn spec_plus(self, other: S64) -> S64 {
        S64(self.0 + other.0)
    }
    fn spec_neg(self) -> S64 {
        S64(-self.0)
    }
    fn spec_recip(self) -> S64 {
        S64(self.0.recip())
    }
    fn precision() -> Precision {
        Precision::Double
    }
    fn zero() -> S64 {
        S64(0.0)
    }
    fn one() -> S64 {
        S64(1.0)
    }
    fn plus(self, other: S64) -> S64 {
        S64(self.0 + other.0)
    }
    fn neg(self) -> S64 {
        S64(-self.0)
    }
    fn recip(self) -> S64 {
        S64(self.0.recip())
    }
    fn factor(stride: usize, matrix: &mut Vec<S64>) -> (Vec<i32>, i32) {
        let n = stride;
        let mut piv: Vec<i32> = (0..n as i32).collect();
        for k in 0..n {
            let mut pk = k;
            let mut maxv = matrix[k * n + k].0.abs();
            for i in (k + 1)..n {
                let v = matrix[i * n + k].0.abs();
                if v > maxv {
                    maxv = v;
                    pk = i;
                }
            }
            if matrix[pk * n + k].0 == 0.0 {
                return (piv, (k + 1) as i32);
            }
            piv[k] = pk as i32;
            if pk != k {
                for j in 0..n {
                    matrix.swap(k * n + j, pk * n + j);
                }
            }
            let d = matrix[k * n + k].0;
            for i in (k + 1)..n {
                let f = matrix[i * n + k].0 / d;
                matrix[i * n + k] = S64(f);
                for j in (k + 1)..n {
                    matrix[i * n + j] = S64(matrix[i * n + j].0 - f * matrix[k * n + j].0);
                }
            }
        }
        (piv, 0)
    }
    fn back_solve(stride: usize, matrix: &Vec<S64>, piv: &Vec<i32>, rhs: &mut Vec<S64>) -> i32 {
        let n = stride;
        for k in 0..n {
            let p = piv[k] as usize;
            if p != k {
                rhs.swap(k, p);
            }
        }
        for i in 1..n {
            let mut s = rhs[i].0;
            for j in 0..i {
                s -= matrix[i * n + j].0 * rhs[j].0;
            }
            rhs[i] = S64(s);
        }
        for ii in 0..n {
            let i = n - 1 - ii;
            let mut s = rhs[i].0;
            for j in (i + 1)..n {
                s -= matrix[i * n + j].0 * rhs[j].0;
            }
            rhs[i] = S64(s / matrix[i * n + i].0);
        }
        0
    }
}

impl Scalar for S32 {
    fn spec_zero() -> S32 {
        S32(0.0)
    }
    fn spec_one() -> S32 {
        S32(1.0)
    }
    fn spec_plus(self, other: S32) -> S32 {
        S32(self.0 + other.0)
    }
    fn spec_neg(self) -> S32 {
        S32(-self.0)
    }
    fn spec_recip(self) -> S32 {
        S32(self.0.recip())
    }
    fn precision() -> Precision {
        Precision::Single
    }
    fn zero() -> S32 {
        S32(0.0)
    }
    fn one() -> S32 {
        S32(1.0)
    }
    fn plus(self, other: S32) -> S32 {
        S32(self.0 + other.0)
    }
    fn neg(self) -> S32 {
        S32(-self.0)
    }
    fn recip(self) -> S32 {
        S32(self.0.recip())
    }
    fn factor(stride: usize, matrix: &mut Vec<S32>) -> (Vec<i32>, i32) {
        let n = stride;
        let mut piv: Vec<i32> = (0..n as i32).collect();
        for k in 0..n {
            let mut pk = k;
            let mut maxv = matrix[k * n + k].0.abs();
            for i in (k + 1)..n {
                let v = matrix[i * n + k].0.abs();
                if v > maxv {
                    maxv = v;
                    pk = i;
                }
            }
            if matrix[pk * n + k].0 == 0.0 {
                return (piv, (k + 1) as i32);
            }
            piv[k] = pk as i32;
            if pk != k {
                for j in 0..n {
                    matrix.swap(k * n + j, pk * n + j);
                }
            }
            let d = matrix[k * n + k].0;
            for i in (k + 1)..n {
                let f = matrix[i * n + k].0 / d;
                matrix[i * n + k] = S32(f);
                for j in (k + 1)..n {
                    matrix[i * n + j] = S32(matrix[i * n + j].0 - f * matrix[k * n + j].0);
                }
            }
        }
        (piv, 0)
    }
    fn back_solve(stride: usize, matrix: &Vec<S32>, piv: &Vec<i32>, rhs: &mut Vec<S32>) -> i32 {
        let n = stride;
        for k in 0..n {
            let p = piv[k] as usize;
            if p != k {
                rhs.swap(k, p);
            }
        }
        for i in 1..n {
            let mut s = rhs[i].0;
            for j in 0..i {
                s -= matrix[i * n + j].0 * rhs[j].0;
            }
            rhs[i] = S32(s);
        }
        for ii in 0..n {
            let i = n - 1 - ii;
            let mut s = rhs[i].0;
            for j in (i + 1)..n {
                s -= matrix[i * n + j].0 * rhs[j].0;
            }
            rhs[i] = S32(s / matrix[i * n + i].0);
        }
        0
    }
}

fn make_simple_circuit_f64(r: f64) -> Result<MatrixEvaluator<S64>, MatrixError> {
    let mut builder = MatrixBuilder::<S64>::new(1, 1)?;
    builder.add_conductance(0, None, S64(r).recip());
    builder.add_vs_con(0, Some(0), None);
    builder.build()
}

fn make_simple_circuit_f32(r: f32) -> Result<MatrixEvaluator<S32>, MatrixError> {
    let mut builder = MatrixBuilder::<S32>::new(1, 1)?;
    builder.add_conductance(0, None, S32(r).recip());
    builder.add_vs_con(0, Some(0), None);
    builder.build()
}

#[test]
fn ohms_law_f64() -> Result<(), MatrixError> {
    for r in 1..3 {
        let mut cir = make_simple_circuit_f64(r as f64)?;
        for v in 1..3 {
            cir.set_potential(0, S64(v as f64));
            assert_eq!(cir.get_potential(0)?, S64(v as f64));
            assert_eq!(cir.get_current(0)?, S64(-(v as f64) / (r as f64)));
        }
    }
    Ok(())
}

#[test]
fn ohms_law_f32() -> Result<(), MatrixError> {
    for r in 1..3 {
        let mut cir = make_simple_circuit_f32(r as f32)?;
        for v in 1..3 {
            cir.set_potential(0, S32(v as f32));
            assert_eq!(cir.get_potential(0)?, S32(v as f32));
            assert_eq!(cir.get_current(0)?, S32(-(v as f32) / (r as f32)));
        }
    }
    Ok(())
}

#[test]
fn divider_two_resistors_one_source() {
    // R1 = 30 between nodes 0 and 1, R2 = 10 from node 1 to ground, 5 V at
    // node 0: V0 = 5, V1 = 1.25, source current = -0.125.
    let mut builder = MatrixBuilder::<S64>::new(2, 1).unwrap();
    builder.add_conductance(0, Some(1), S64(30.0).recip());
    builder.add_conductance(1, None, S64(10.0).recip());
    builder.add_vs_con(0, Some(0), None);
    let mut cir = builder.build().unwrap();
    cir.set_potential(0, S64(5.0));
    assert!((cir.get_potential(0).unwrap().0 - 5.0).abs() < 1e-12);
    assert!((cir.get_potential(1).unwrap().0 - 1.25).abs() < 1e-12);
    assert!((cir.get_current(0).unwrap().0 - (-0.125)).abs() < 1e-12);
}

#[test]
fn two_sources_three_nodes() {
    // Conductance 0.1 between nodes 1 and 2, 1/30 between 0 and 1; 5 V at
    // node 0, 20 V at node 2. KCL at node 1 gives V1 = (V0 + 3 V2)/4 = 16.25.
    let mut builder = MatrixBuilder::<S64>::new(3, 2).unwrap();
    builder.add_conductance(1, Some(2), S64(0.1));
    builder.add_conductance(0, Some(1), S64(1.0 / 30.0));
    builder.add_vs_con(0, Some(0), None);
    builder.add_vs_con(1, Some(2), None);
    let mut cir = builder.build().unwrap();
    cir.set_potential(0, S64(5.0));
    cir.set_potential(1, S64(20.0));
    let pots = cir.node_potentials().unwrap();
    assert!((pots[0].0 - 5.0).abs() < 1e-12);
    assert!((pots[1].0 - 16.25).abs() < 1e-12);
    assert!((pots[2].0 - 20.0).abs() < 1e-12);
}

#[test]
fn solve_round_trip_f64() {
    // A · solve(b) = b to 1e-12 relative error on an assembled circuit.
    let mut builder = MatrixBuilder::<S64>::new(3, 2).unwrap();
    builder.add_conductance(1, Some(2), S64(0.1));
    builder.add_conductance(0, Some(1), S64(1.0 / 30.0));
    builder.add_conductance(0, None, S64(0.25));
    builder.add_vs_con(0, Some(0), None);
    builder.add_vs_con(1, Some(2), None);
    let a = builder.matrix();
    let stride = builder.size();
    let mut cir = builder.build().unwrap();
    cir.set_potential(0, S64(5.0));
    cir.set_potential(1, S64(20.0));
    cir.add_current(1, S64(0.75));
    let mut b: Vec<f64> = cir.node_currents().iter().map(|s| s.0).collect();
    b.extend(cir.src_potentials().iter().map(|s| s.0));
    let mut x: Vec<f64> = cir.node_potentials().unwrap().iter().map(|s| s.0).collect();
    x.extend(cir.src_currents().unwrap().iter().map(|s| s.0));
    for row in 0..stride {
        let mut acc = 0.0f64;
        for col in 0..stride {
            acc += a[row * stride + col].0 * x[col];
        }
        let scale = if b[row].abs() > 1.0 { b[row].abs() } else { 1.0 };
        assert!((acc - b[row]).abs() / scale < 1e-12);
    }
}

#[test]
fn solve_round_trip_f32() {
    let mut builder = MatrixBuilder::<S32>::new(2, 1).unwrap();
    builder.add_conductance(0, Some(1), S32(1.0 / 30.0));
    builder.add_conductance(1, None, S32(0.1));
    builder.add_vs_con(0, Some(0), None);
    let a = builder.matrix();
    let stride = builder.size();
    let mut cir = builder.build().unwrap();
    cir.set_potential(0, S32(5.0));
    let mut b: Vec<f32> = cir.node_currents().iter().map(|s| s.0).collect();
    b.extend(cir.src_potentials().iter().map(|s| s.0));
    let mut x: Vec<f32> = cir.node_potentials().unwrap().iter().map(|s| s.0).collect();
    x.extend(cir.src_currents().unwrap().iter().map(|s| s.0));
    for row in 0..stride {
        let mut acc = 0.0f32;
        for col in 0..stride {
            acc += a[row * stride + col].0 * x[col];
        }
        let scale = if b[row].abs() > 1.0 { b[row].abs() } else { 1.0 };
        assert!((acc - b[row]).abs() / scale < 1e-6);
    }
}

#[test]
fn resistor_rows_sum_to_zero() {
    // With no ground connection, each resistor's off-diagonal stamps cancel
    // its diagonal stamps row by row (Kirchhoff).
    let mut builder = MatrixBuilder::<S64>::new(3, 0).unwrap();
    builder.add_conductance(0, Some(1), S64(0.5));
    builder.add_conductance(1, Some(2), S64(0.25));
    builder.add_conductance(0, Some(2), S64(2.0));
    let a = builder.matrix();
    for row in 0..3 {
        let sum: f64 = (0..3).map(|col| a[row * 3 + col].0).sum();
        assert_eq!(sum, 0.0);
    }
}

#[test]
fn stamping_is_additive_builder() {
    // Adding a conductance and then its negation restores the matrix bit for
    // bit.
    let mut builder = MatrixBuilder::<S64>::new(3, 1).unwrap();
    builder.add_conductance(0, Some(1), S64(0.3));
    builder.add_vs_con(0, Some(2), None);
    let before = builder.matrix();
    let g = S64(7.0).recip();
    builder.add_conductance(1, Some(2), g);
    builder.add_conductance(1, Some(2), g.neg());
    assert_eq!(builder.matrix(), before);
}

#[test]
fn stamping_is_additive_known() {
    // Adding a potential and a current and then their negations restores the
    // right-hand side bit for bit.
    let mut builder = MatrixBuilder::<S64>::new(2, 1).unwrap();
    builder.add_conductance(0, Some(1), S64(0.5));
    builder.add_vs_con(0, Some(0), None);
    let mut cir = builder.build().unwrap();
    cir.add_potential(0, S64(2.5));
    cir.add_current(1, S64(0.125));
    let before_currents = cir.node_currents();
    let before_potentials = cir.src_potentials();
    cir.add_potential(0, S64(0.7));
    cir.add_current(1, S64(3.25));
    cir.add_potential(0, S64(0.7).neg());
    cir.add_current(1, S64(3.25).neg());
    assert_eq!(cir.node_currents(), before_currents);
    assert_eq!(cir.src_potentials(), before_potentials);
}

#[test]
fn stamping_is_additive_through_circuit() {
    // With the circuit up to date, apply_effect then repeal_effect leaves
    // the assembling matrix bit for bit as it was, and the same for a
    // source's right-hand side.
    let mut c = Circuit::<S64>::new().unwrap();
    let r = c.add(BipoleKind::Resistor(S64(4.0)));
    let v = c.add(BipoleKind::VoltageSource(S64(5.0)));
    c.ground_pin(&r, false).unwrap();
    c.ground_pin(&v, false).unwrap();
    c.update().unwrap();
    assert!(!c.need_linearize() && !c.need_rebuild());
    let before = c.builder().matrix();
    c.apply_effect(&r).unwrap();
    c.repeal_effect(&r).unwrap();
    assert_eq!(c.builder().matrix(), before);
    let before_known = c.evaluator().src_potentials();
    c.apply_effect(&v).unwrap();
    c.repeal_effect(&v).unwrap();
    assert_eq!(c.evaluator().src_potentials(), before_known);
}

#[test]
fn set_kind_restamps_potential_incrementally() {
    // With both flags clear, changing a voltage source's value lands in the
    // right-hand side at once: the old potential is repealed and the new one
    // applied, with no rebuild pending.
    let mut c = Circuit::<S64>::new().unwrap();
    let r = c.add(BipoleKind::Resistor(S64(2.0)));
    let v = c.add(BipoleKind::VoltageSource(S64(5.0)));
    c.ground_pin(&r, false).unwrap();
    c.ground_pin(&v, false).unwrap();
    c.update().unwrap();
    assert_eq!(c.evaluator().src_potentials(), vec![S64(5.0)]);
    let mut slot = Some(c);
    v.set_kind(&mut slot, BipoleKind::VoltageSource(S64(7.0))).unwrap();
    let c = slot.unwrap();
    assert!(!c.need_linearize() && !c.need_rebuild());
    assert_eq!(c.evaluator().src_potentials(), vec![S64(7.0)]);
}

#[test]
fn circuit_solves_grounded_sources() {
    // A resistor to ground and a 5 V source to ground: after update the
    // source's positive node sits at 5 V and the resistor's at 0 V.
    let mut c = Circuit::<S64>::new().unwrap();
    let r = c.add(BipoleKind::Resistor(S64(2.0)));
    let v = c.add(BipoleKind::VoltageSource(S64(5.0)));
    c.ground_pin(&r, false).unwrap();
    c.ground_pin(&v, false).unwrap();
    c.update().unwrap();
    let r_node = c.bipole(&r).unwrap().pos().id(c.node_namespace()).unwrap();
    let v_node = c.bipole(&v).unwrap().pos().id(c.node_namespace()).unwrap();
    let ev = c.evaluator_mut();
    assert!((ev.get_potential(v_node).unwrap().0 - 5.0).abs() < 1e-12);
    assert!((ev.get_potential(r_node).unwrap().0 - 0.0).abs() < 1e-12);
}

#[test]
fn builder_overflow() {
    assert_eq!(
        MatrixBuilder::<S64>::new(usize::MAX, 1).err(),
        Some(MatrixError::Overflow)
    );
    assert_eq!(
        MatrixBuilder::<S64>::new(usize::MAX / 2, usize::MAX / 2).err(),
        Some(MatrixError::Overflow)
    );
}

#[test]
fn singular_build_reports_pivot() {
    // An empty 1-node system has an all-zero matrix: the first pivot is zero.
    let builder = MatrixBuilder::<S64>::new(1, 0).unwrap();
    assert_eq!(builder.build().err(), Some(MatrixError::Singular { idx: 0 }));
}

#[test]
fn circuit_error_wraps_matrix_error() {
    let e = CircuitError::from(MatrixError::BadArg { idx: 3 });
    assert_eq!(e, CircuitError::MatrixError(MatrixError::BadArg { idx: 3 }));
}

#[test]
fn circuit_add_sets_flags_and_update_clears_them() {
    let mut c = Circuit::<S64>::new().unwrap();
    assert!(!c.need_linearize() && !c.need_rebuild());
    let b = c.add(BipoleKind::VoltageSource(S64(5.0)));
    assert!(c.need_linearize() && c.need_rebuild());
    // one source, two floating nodes: the system is singular, flags stand
    assert!(c.update().is_err());
    assert!(c.need_linearize() && c.need_rebuild());
    // the source row was allocated
    let bp = c.bipole(&b).unwrap();
    assert!(bp.vsid().is_some());
    assert!(!bp.pos().is_ground() && !bp.neg().is_ground());
}

#[test]
fn empty_circuit_update_succeeds() {
    let mut c = Circuit::<S64>::new().unwrap();
    assert!(c.update().is_ok());
    assert_eq!(c.builder().size(), 0);
}

#[test]
fn set_kind_swaps_source_row() {
    let c = Circuit::<S64>::new().unwrap();
    let mut slot = Some(c);
    let b = slot.as_mut().unwrap().add(BipoleKind::Resistor(S64(1.0)));
    assert!(slot.as_ref().unwrap().bipole(&b).unwrap().vsid().is_none());
    b.set_kind(&mut slot, BipoleKind::VoltageSource(S64(2.0))).unwrap();
    assert!(slot.as_ref().unwrap().bipole(&b).unwrap().vsid().is_some());
    b.set_kind(&mut slot, BipoleKind::CurrentSource(S64(0.5))).unwrap();
    assert!(slot.as_ref().unwrap().bipole(&b).unwrap().vsid().is_none());
}

#[test]
fn set_kind_after_circuit_dropped_is_dead() {
    // The handle outlives its circuit: the upgrade fails with CircuitDead.
    let mut slot: Option<Circuit<S64>> = Some(Circuit::new().unwrap());
    let b = slot.as_mut().unwrap().add(BipoleKind::Resistor(S64(1.0)));
    slot = None;
    assert_eq!(
        b.set_kind(&mut slot, BipoleKind::Resistor(S64(2.0))),
        Err(CircuitError::CircuitDead)
    );
}

#[test]
fn update_builds_the_mna_matrix() {
    // One resistor and one voltage source: after update the builder holds
    // the conductance block and the ±1 constraint pair at the right slots.
    let mut c = Circuit::<S64>::new().unwrap();
    let _r = c.add(BipoleKind::Resistor(S64(2.0)));
    let _v = c.add(BipoleKind::VoltageSource(S64(5.0)));
    // the combined system is singular (nothing grounded); stamps still land
    assert!(c.update().is_err());
    let b = c.builder();
    assert_eq!(b.nodes(), 4);
    assert_eq!(b.sources(), 1);
    let stride = b.size();
    assert_eq!(stride, 5);
    let m = b.matrix();
    let g = 0.5f64;
    assert_eq!(m[0 * stride + 0].0, g);
    assert_eq!(m[1 * stride + 1].0, g);
    assert_eq!(m[0 * stride + 1].0, -g);
    assert_eq!(m[1 * stride + 0].0, -g);
    // the source's pins are nodes 2 and 3; its constraint row is 4
    assert_eq!(m[4 * stride + 2].0, 1.0);
    assert_eq!(m[2 * stride + 4].0, 1.0);
    assert_eq!(m[4 * stride + 3].0, -1.0);
    assert_eq!(m[3 * stride + 4].0, -1.0);
}
