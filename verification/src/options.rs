//! The solver's option vocabulary and the options handed to the simple
//! driver.
//!
//! The enums mirror, name for name, the option and tag vocabulary of the
//! sparse-direct-solver interface: storage type, data type, mathematical
//! type, factorization mode, permutation policies, and so on.  The
//! [`SimpleDriverOptions`] struct collects the decisions the simple driver
//! accepts; converting them into the solver's own option record is the
//! caller's concern at the foreign boundary.

use vstd::prelude::*;

verus! {

/// Storage type of a solver matrix.
#[allow(non_camel_case_types)]
#[derive(Debug, Clone, Copy, PartialEq, Eq, Structural)]
pub enum Stype_t {
    SLU_NC,
    SLU_NCP,
    SLU_NR,
    SLU_SC,
    SLU_SCP,
    SLU_SR,
    SLU_DN,
    SLU_NR_loc,
}

/// Data type (precision) of a solver matrix.
#[allow(non_camel_case_types)]
#[derive(Debug, Clone, Copy, PartialEq, Eq, Structural)]
pub enum Dtype_t {
    SLU_S,
    SLU_D,
    SLU_C,
    SLU_Z,
}

/// Mathematical type of a solver matrix.
#[allow(non_camel_case_types)]
#[derive(Debug, Clone, Copy, PartialEq, Eq, Structural)]
pub enum Mtype_t {
    SLU_GE,
    SLU_TRLU,
    SLU_TRUU,
    SLU_TRL,
    SLU_TRU,
    SLU_SYL,
    SLU_SYU,
    SLU_HEL,
    SLU_HEU,
}

/// A yes/no switch in the solver's option record.
#[allow(non_camel_case_types)]
#[derive(Debug, Clone, Copy, PartialEq, Eq, Structural)]
pub enum yes_no_t {
    NO,
    YES,
}

/// How much of a previous factorization the solver may reuse.
#[allow(non_camel_case_types)]
#[derive(Debug, Clone, Copy, PartialEq, Eq, Structural)]
pub enum fact_t {
    DOFACT,
    SamePattern,
    SamePattern_SameRowPerm,
    FACTORED,
}

/// How the column permutation is obtained.
#[allow(non_camel_case_types)]
#[derive(Debug, Clone, Copy, PartialEq, Eq, Structural)]
pub enum colperm_t {
    NATURAL,
    MMD_ATA,
    MMD_AT_PLUS_A,
    COLAMD,
    METIS_AT_PLUS_A,
    PARAMETIS,
    ZOLTAN,
    MY_PERMC,
}

/// Whether the system is solved as given, transposed, or conjugated.
#[allow(non_camel_case_types)]
#[derive(Debug, Clone, Copy, PartialEq, Eq, Structural)]
pub enum trans_t {
    NOTRANS,
    TRANS,
    CONJ,
}

/// Iterative-refinement setting.
#[allow(non_camel_case_types)]
#[derive(Debug, Clone, Copy, PartialEq, Eq, Structural)]
pub enum IterRefine_t {
    NOREFINE,
    SLU_SINGLE,
    SLU_DOUBLE,
    SLU_EXTRA,
}

/// How the row permutation is obtained.
#[allow(non_camel_case_types)]
#[derive(Debug, Clone, Copy, PartialEq, Eq, Structural)]
pub enum rowperm_t {
    NOROWPERM,
    LargeDiag_MC64,
    LargeDiag_HWPM,
    MY_PERMR,
}

/// Norm selection for condition-number estimation.
#[allow(non_camel_case_types)]
#[derive(Debug, Clone, Copy, PartialEq, Eq, Structural)]
pub enum norm_t {
    ONE_NORM,
    TWO_NORM,
    INF_NORM,
}

/// Modified-incomplete-LU variant selection.
#[allow(non_camel_case_types)]
#[derive(Debug, Clone, Copy, PartialEq, Eq, Structural)]
pub enum milu_t {
    SILU,
    SMILU_1,
    SMILU_2,
    SMILU_3,
}

/// The policies a caller may pick for computing the column permutation.
///
/// The orderings control the fill-in created during elimination; supplying
/// a permutation of one's own is mutually exclusive with choosing a policy.
#[derive(Debug, Clone, Copy, PartialEq, Eq, Structural)]
pub enum ColumnPermPolicy {
    /// Do not re-order columns.
    Natural,
    /// Multiple minimum degree applied to the product of the transpose
    /// with the matrix.
    MmdAtA,
    /// Multiple minimum degree applied to the sum of the transpose and
    /// the matrix.
    MmdAtPlusA,
    /// Column approximate minimum degree.
    ColAMD,
}

/// The column-permutation mode a policy selects.
pub open spec fn colperm_of_policy(policy: ColumnPermPolicy) -> colperm_t {
    match policy {
        ColumnPermPolicy::Natural => colperm_t::NATURAL,
        ColumnPermPolicy::MmdAtA => colperm_t::MMD_ATA,
        ColumnPermPolicy::MmdAtPlusA => colperm_t::MMD_AT_PLUS_A,
        ColumnPermPolicy::ColAMD => colperm_t::COLAMD,
    }
}

/// Options for the simple driver.
///
/// Collects the decisions the simple driver accepts: the factorization
/// mode, the column- and row-permutation modes, equilibration, symmetric
/// mode, and statistics printing.  The diagonal-pivot threshold is a
/// floating-point knob applied at the foreign boundary and is not recorded
/// here.
#[derive(Debug, Clone, Copy, PartialEq, Eq, Structural)]
pub struct SimpleDriverOptions {
    fact: fact_t,
    equil: yes_no_t,
    col_perm: colperm_t,
    trans: trans_t,
    iter_refine: IterRefine_t,
    symmetric_mode: yes_no_t,
    row_perm: rowperm_t,
    print_stat: yes_no_t,
    diagonally_dominant: bool,
}

impl SimpleDriverOptions {
    /// The factorization mode.
    pub closed spec fn fact_spec(self) -> fact_t {
        self.fact
    }

    /// The column-permutation mode.
    pub closed spec fn col_perm_spec(self) -> colperm_t {
        self.col_perm
    }

    /// The row-permutation mode.
    pub closed spec fn row_perm_spec(self) -> rowperm_t {
        self.row_perm
    }

    /// Whether symmetric (diagonally dominant) mode is on.
    pub closed spec fn symmetric_mode_spec(self) -> yes_no_t {
        self.symmetric_mode
    }

    /// Whether the diagonally dominant setting has been chosen.
    pub closed spec fn diagonally_dominant_spec(self) -> bool {
        self.diagonally_dominant
    }

    /// Whether the solver equilibrates the system.
    pub closed spec fn equil_spec(self) -> yes_no_t {
        self.equil
    }

    /// Whether the system is solved as given or transposed.
    pub closed spec fn trans_spec(self) -> trans_t {
        self.trans
    }

    /// The iterative-refinement setting.
    pub closed spec fn iter_refine_spec(self) -> IterRefine_t {
        self.iter_refine
    }

    /// Whether the solver prints statistics.
    pub closed spec fn print_stat_spec(self) -> yes_no_t {
        self.print_stat
    }

    /// Read the factorization mode.
    pub fn fact(&self) -> (r: fact_t)
        ensures
            r == self.fact_spec(),
    {
        self.fact
    }

    /// Read the column-permutation mode.
    pub fn col_perm(&self) -> (r: colperm_t)
        ensures
            r == self.col_perm_spec(),
    {
        self.col_perm
    }

    /// Read the row-permutation mode.
    pub fn row_perm(&self) -> (r: rowperm_t)
        ensures
            r == self.row_perm_spec(),
    {
        self.row_perm
    }

    /// Read the symmetric-mode switch.
    pub fn symmetric_mode(&self) -> (r: yes_no_t)
        ensures
            r == self.symmetric_mode_spec(),
    {
        self.symmetric_mode
    }

    /// Read the equilibration switch.
    pub fn equil(&self) -> (r: yes_no_t)
        ensures
            r == self.equil_spec(),
    {
        self.equil
    }

    /// Read the transpose setting.
    pub fn trans(&self) -> (r: trans_t)
        ensures
            r == self.trans_spec(),
    {
        self.trans
    }

    /// Read the iterative-refinement setting.
    pub fn iter_refine(&self) -> (r: IterRefine_t)
        ensures
            r == self.iter_refine_spec(),
    {
        self.iter_refine
    }

    /// Read the statistics-printing switch.
    pub fn print_stat(&self) -> (r: yes_no_t)
        ensures
            r == self.print_stat_spec(),
    {
        self.print_stat
    }

    /// Whether the diagonally dominant setting has been chosen.
    pub fn diagonally_dominant(&self) -> (r: bool)
        ensures
            r == self.diagonally_dominant_spec(),
    {
        self.diagonally_dominant
    }

    /// Default options: factor from scratch, equilibrate, column
    /// approximate minimum degree, no transpose, no refinement, ordinary
    /// partial pivoting, print statistics.
    pub fn new() -> (r: SimpleDriverOptions)
        ensures
            r.fact_spec() == fact_t::DOFACT,
            r.col_perm_spec() == colperm_t::COLAMD,
            r.row_perm_spec() == rowperm_t::LargeDiag_MC64,
            r.symmetric_mode_spec() == yes_no_t::NO,
            !r.diagonally_dominant_spec(),
    {
        SimpleDriverOptions {
            fact: fact_t::DOFACT,
            equil: yes_no_t::YES,
            col_perm: colperm_t::COLAMD,
            trans: trans_t::NOTRANS,
            iter_refine: IterRefine_t::NOREFINE,
            symmetric_mode: yes_no_t::NO,
            row_perm: rowperm_t::LargeDiag_MC64,
            print_stat: yes_no_t::YES,
            diagonally_dominant: false,
        }
    }

    /// Let the solver compute the column permutation under `policy`.
    ///
    /// Not available once the diagonally dominant setting has been chosen:
    /// that setting fixes its own ordering policy.
    pub fn set_superlu_column_perm(&mut self, policy: ColumnPermPolicy)
        requires
            !old(self).diagonally_dominant_spec(),
        ensures
            final(self).col_perm_spec() == colperm_of_policy(policy),
            final(self).fact_spec() == old(self).fact_spec(),
            final(self).row_perm_spec() == old(self).row_perm_spec(),
            final(self).symmetric_mode_spec() == old(self).symmetric_mode_spec(),
            final(self).diagonally_dominant_spec() == old(self).diagonally_dominant_spec(),
    {
        self.col_perm = match policy {
            ColumnPermPolicy::Natural => colperm_t::NATURAL,
            ColumnPermPolicy::MmdAtA => colperm_t::MMD_ATA,
            ColumnPermPolicy::MmdAtPlusA => colperm_t::MMD_AT_PLUS_A,
            ColumnPermPolicy::ColAMD => colperm_t::COLAMD,
        };
    }

    /// Use a caller-supplied column permutation during the solve.
    pub fn set_user_column_perm(&mut self)
        ensures
            final(self).col_perm_spec() == colperm_t::MY_PERMC,
            final(self).fact_spec() == old(self).fact_spec(),
            final(self).row_perm_spec() == old(self).row_perm_spec(),
            final(self).symmetric_mode_spec() == old(self).symmetric_mode_spec(),
            final(self).diagonally_dominant_spec() == old(self).diagonally_dominant_spec(),
    {
        self.col_perm = colperm_t::MY_PERMC;
    }

    /// Use a caller-supplied row permutation during the solve.
    pub fn set_user_row_perm(&mut self)
        ensures
            final(self).row_perm_spec() == rowperm_t::MY_PERMR,
            final(self).fact_spec() == old(self).fact_spec(),
            final(self).col_perm_spec() == old(self).col_perm_spec(),
            final(self).symmetric_mode_spec() == old(self).symmetric_mode_spec(),
            final(self).diagonally_dominant_spec() == old(self).diagonally_dominant_spec(),
    {
        self.row_perm = rowperm_t::MY_PERMR;
    }

    /// Reuse the sparsity pattern and the row permutation of an earlier
    /// factorization.
    pub fn set_same_pattern_same_row_perm(&mut self)
        ensures
            final(self).fact_spec() == fact_t::SamePattern_SameRowPerm,
            final(self).col_perm_spec() == old(self).col_perm_spec(),
            final(self).row_perm_spec() == old(self).row_perm_spec(),
            final(self).symmetric_mode_spec() == old(self).symmetric_mode_spec(),
            final(self).diagonally_dominant_spec() == old(self).diagonally_dominant_spec(),
    {
        self.fact = fact_t::SamePattern_SameRowPerm;
    }

    /// Switch symmetric mode on or off.
    pub fn set_symmetric_mode(&mut self, value: bool)
        ensures
            final(self).symmetric_mode_spec() == (if value {
                yes_no_t::YES
            } else {
                yes_no_t::NO
            }),
            final(self).fact_spec() == old(self).fact_spec(),
            final(self).col_perm_spec() == old(self).col_perm_spec(),
            final(self).row_perm_spec() == old(self).row_perm_spec(),
            final(self).diagonally_dominant_spec() == old(self).diagonally_dominant_spec(),
    {
        self.symmetric_mode = if value {
            yes_no_t::YES
        } else {
            yes_no_t::NO
        };
    }

    /// Factor under the assumption that the matrix is diagonally dominant:
    /// symmetric mode, with an ordering based on the sum of the transpose
    /// and the matrix.  The small diagonal-pivot threshold that accompanies
    /// this mode is applied at the foreign boundary.
    pub fn set_diagonally_dominant(&mut self, value: bool)
        requires
            !old(self).diagonally_dominant_spec(),
        ensures
            final(self).diagonally_dominant_spec() == value,
            final(self).symmetric_mode_spec() == (if value {
                yes_no_t::YES
            } else {
                yes_no_t::NO
            }),
            value ==> final(self).col_perm_spec() == colperm_t::MMD_AT_PLUS_A,
            !value ==> final(self).col_perm_spec() == old(self).col_perm_spec(),
            final(self).fact_spec() == old(self).fact_spec(),
            final(self).row_perm_spec() == old(self).row_perm_spec(),
    {
        self.set_symmetric_mode(value);
        if value {
            self.set_superlu_column_perm(ColumnPermPolicy::MmdAtPlusA);
        }
        self.diagonally_dominant = value;
    }
}

} // verus!
