use vstd::prelude::*;
use crate::algebra::{
    lemma_from_usize_canonical, lemma_mul_distributive_right, lemma_mul_zero, Field,
};
use crate::error::FemError;
use crate::scalar::{zeros, Scalar};

verus! {

/// Each entry lies strictly below the next.
pub open spec fn strictly_increasing<T: Scalar>(s: Seq<T>) -> bool {
    forall|i: int| 0 <= i && i + 1 < s.len() ==> (#[trigger] s[i]).lt_spec(s[i + 1])
}

/// Each entry lies strictly above zero.
pub open spec fn all_positive<T: Scalar>(s: Seq<T>) -> bool {
    forall|i: int| 0 <= i < s.len() ==> T::zero_spec().lt_spec(#[trigger] s[i])
}

/// What a mesh is: where its nodes lie, how long its elements are, the field
/// value at each node, and the material that all elements share.
#[verifier::ext_equal]
pub struct MeshView<T> {
    pub coordinates: Seq<T>,
    pub sizes: Seq<T>,
    pub values: Seq<T>,
    pub elasticity: T,
    pub area: T,
    pub internal_force: T,
}

impl<T: Scalar> MeshView<T> {
    /// The number of elements.
    pub open spec fn n_elements(self) -> nat {
        self.sizes.len()
    }

    /// There is at least one element, one node more than elements, one value
    /// for each node; the coordinates increase and every element has a
    /// positive length.
    pub open spec fn wf(self) -> bool {
        &&& self.sizes.len() >= 1
        &&& self.coordinates.len() == self.sizes.len() + 1
        &&& self.values.len() == self.sizes.len() + 1
        &&& strictly_increasing(self.coordinates)
        &&& all_positive(self.sizes)
    }

    /// The length of each element of a mesh of `n` equal elements over `length`.
    pub open spec fn uniform_size(length: T, n: usize) -> T {
        length.div_spec(T::from_usize_spec(n))
    }

    /// The mesh of `n` equal elements that starts at zero and covers `length`,
    /// with every node value and every material parameter at zero.
    pub open spec fn uniform(length: T, n: usize) -> Self {
        MeshView {
            coordinates: Seq::new(
                (n + 1) as nat,
                |i: int| T::from_usize_spec(i as usize).mul_spec(Self::uniform_size(length, n)),
            ),
            sizes: Seq::new(n as nat, |i: int| Self::uniform_size(length, n)),
            values: Seq::new((n + 1) as nat, |i: int| T::zero_spec()),
            elasticity: T::zero_spec(),
            area: T::zero_spec(),
            internal_force: T::zero_spec(),
        }
    }

    /// The mesh whose nodes lie at `coordinates`, each element as long as the
    /// difference of its end nodes, with every node value and every material
    /// parameter at zero.
    pub open spec fn general(coordinates: Seq<T>) -> Self {
        MeshView {
            coordinates,
            sizes: Seq::new(
                if coordinates.len() >= 1 {
                    (coordinates.len() - 1) as nat
                } else {
                    0
                },
                |i: int| coordinates[i + 1].sub_spec(coordinates[i]),
            ),
            values: Seq::new(coordinates.len(), |i: int| T::zero_spec()),
            elasticity: T::zero_spec(),
            area: T::zero_spec(),
            internal_force: T::zero_spec(),
        }
    }
}

/// In a uniform mesh every element has the length of the whole divided by
/// the number of elements, and node `i` lies at `i` such lengths.
pub proof fn lemma_uniform_entries<T: Scalar>(length: T, n: usize, i: int)
    requires
        0 <= i <= n < usize::MAX,
    ensures
        MeshView::<T>::uniform(length, n).coordinates.len() == n + 1,
        MeshView::<T>::uniform(length, n).sizes.len() == n,
        MeshView::<T>::uniform(length, n).coordinates[i] == T::from_usize_spec(
            i as usize,
        ).mul_spec(length.div_spec(T::from_usize_spec(n))),
        i < n ==> MeshView::<T>::uniform(length, n).sizes[i] == length.div_spec(
            T::from_usize_spec(n),
        ),
{
}

/// In exact arithmetic the nodes of a uniform mesh form an arithmetic
/// sequence: each lies one element length after the one before.
pub proof fn lemma_uniform_step<T: Field>(length: T, n: usize, i: int)
    requires
        0 <= i < n < usize::MAX,
    ensures
        MeshView::<T>::uniform(length, n).coordinates[i + 1] == MeshView::<T>::uniform(
            length,
            n,
        ).coordinates[i].add_spec(MeshView::<T>::uniform(length, n).sizes[i]),
{
    let size = MeshView::<T>::uniform_size(length, n);
    let at = T::from_usize_spec(i as usize);
    T::lemma_from_usize_succ(i as usize);
    lemma_mul_distributive_right(at, T::one_spec(), size);
    T::lemma_div_canonical(length, T::from_usize_spec(n));
    T::lemma_mul_commutative(T::one_spec(), size);
    T::lemma_mul_one(size);
}

/// In exact arithmetic a uniform mesh starts at zero, and it ends at its
/// length where the number of elements is not zero as a scalar.
pub proof fn lemma_uniform_span<T: Field>(length: T, n: usize)
    requires
        0 < n < usize::MAX,
        length.canonical(),
    ensures
        MeshView::<T>::uniform(length, n).coordinates[0] == T::zero_spec(),
        T::from_usize_spec(n) != T::zero_spec() ==> MeshView::<T>::uniform(
            length,
            n,
        ).coordinates[n as int] == length,
{
    let count = T::from_usize_spec(n);
    let size = MeshView::<T>::uniform_size(length, n);
    T::lemma_from_usize_zero();
    lemma_mul_zero(size);
    if count != T::zero_spec() {
        lemma_from_usize_canonical::<T>(n);
        T::lemma_div_mul(length, count);
        T::lemma_mul_commutative(count, size);
    }
}

/// Whether each entry lies strictly below the next.
pub fn is_strictly_increasing<T: Scalar>(v: &Vec<T>) -> (r: bool)
    ensures
        r == strictly_increasing(v@),
{
    let n: usize = v.len();
    if n < 2 {
        return true;
    }
    let mut i: usize = 0;
    while i + 1 < n
        invariant
            n == v@.len(),
            i + 1 <= n,
            forall|k: int| 0 <= k < i ==> (#[trigger] v@[k]).lt_spec(v@[k + 1]),
        decreases n - i,
    {
        if !v[i].lt(v[i + 1]) {
            return false;
        }
        i += 1;
    }
    true
}

/// Whether each entry lies strictly above zero.
pub fn is_all_positive<T: Scalar>(v: &Vec<T>) -> (r: bool)
    ensures
        r == all_positive(v@),
{
    let n: usize = v.len();
    let zero = T::zero();
    let mut i: usize = 0;
    while i < n
        invariant
            n == v@.len(),
            i <= n,
            zero == T::zero_spec(),
            forall|k: int| 0 <= k < i ==> T::zero_spec().lt_spec(#[trigger] v@[k]),
        decreases n - i,
    {
        if !zero.lt(v[i]) {
            return false;
        }
        i += 1;
    }
    true
}

/// A one-dimensional domain cut into contiguous elements.
#[derive(Debug, PartialEq)]
pub struct Mesh1D<T: Scalar> {
    n_elements: usize,
    element_size: Vec<T>,
    node_coordinates: Vec<T>,
    node_values: Vec<T>,
    elasticity: T,
    area: T,
    internal_force: T,
}

impl<T: Scalar> View for Mesh1D<T> {
    type V = MeshView<T>;

    closed spec fn view(&self) -> MeshView<T> {
        MeshView {
            coordinates: self.node_coordinates@,
            sizes: self.element_size@,
            values: self.node_values@,
            elasticity: self.elasticity,
            area: self.area,
            internal_force: self.internal_force,
        }
    }
}

impl<T: Scalar> Mesh1D<T> {
    #[verifier::type_invariant]
    spec fn inv(self) -> bool {
        &&& self.n_elements == self.element_size@.len()
        &&& self@.wf()
    }

    /// `n_elements` equal elements that cover `[0, length]`, or
    /// `InvalidMeshSpec` where that is no mesh: with no element, or with a
    /// length for which the sizes are not positive or the coordinates do not
    /// increase.
    pub fn uniform_mesh(length: T, n_elements: usize) -> (res: Result<Self, FemError>)
        requires
            n_elements < usize::MAX,
        ensures
            match res {
                Ok(m) => m@ == MeshView::<T>::uniform(length, n_elements) && m@.wf(),
                Err(e) => e == FemError::InvalidMeshSpec && !MeshView::<T>::uniform(
                    length,
                    n_elements,
                ).wf(),
            },
    {
        if n_elements == 0 {
            return Err(FemError::InvalidMeshSpec);
        }
        let size = length.div(T::from_usize(n_elements));
        let mut element_size: Vec<T> = Vec::new();
        let mut i: usize = 0;
        while i < n_elements
            invariant
                i <= n_elements,
                element_size@.len() == i,
                forall|k: int| 0 <= k < i ==> element_size@[k] == size,
            decreases n_elements - i,
        {
            element_size.push(size);
            i += 1;
        }
        let mut node_coordinates: Vec<T> = Vec::new();
        let mut j: usize = 0;
        while j <= n_elements
            invariant
                j <= n_elements + 1,
                n_elements < usize::MAX,
                node_coordinates@.len() == j,
                forall|k: int|
                    0 <= k < j ==> node_coordinates@[k] == T::from_usize_spec(
                        k as usize,
                    ).mul_spec(size),
            decreases n_elements + 1 - j,
        {
            node_coordinates.push(T::from_usize(j).mul(size));
            j += 1;
        }
        let node_values: Vec<T> = zeros(n_elements + 1);
        proof {
            let target = MeshView::<T>::uniform(length, n_elements);
            assert(element_size@ =~= target.sizes);
            assert(node_coordinates@ =~= target.coordinates);
            assert(node_values@ =~= target.values);
        }
        if !is_all_positive(&element_size) || !is_strictly_increasing(&node_coordinates) {
            return Err(FemError::InvalidMeshSpec);
        }
        Ok(
            Mesh1D {
                n_elements,
                element_size,
                node_coordinates,
                node_values,
                elasticity: T::zero(),
                area: T::zero(),
                internal_force: T::zero(),
            },
        )
    }

    /// The mesh whose nodes lie at the given coordinates, or `InvalidMeshSpec`
    /// where they are fewer than two, do not strictly increase, or leave an
    /// element without a positive length.
    pub fn general_mesh(node_coordinates: Vec<T>) -> (res: Result<Self, FemError>)
        ensures
            match res {
                Ok(m) => m@ == MeshView::<T>::general(node_coordinates@) && m@.wf(),
                Err(e) => e == FemError::InvalidMeshSpec && !MeshView::<T>::general(
                    node_coordinates@,
                ).wf(),
            },
    {
        if node_coordinates.len() < 2 {
            return Err(FemError::InvalidMeshSpec);
        }
        let n_elements: usize = node_coordinates.len() - 1;
        let mut element_size: Vec<T> = Vec::new();
        let mut i: usize = 0;
        while i < n_elements
            invariant
                i <= n_elements,
                n_elements + 1 == node_coordinates@.len(),
                element_size@.len() == i,
                forall|k: int|
                    0 <= k < i ==> element_size@[k] == node_coordinates@[k + 1].sub_spec(
                        node_coordinates@[k],
                    ),
            decreases n_elements - i,
        {
            element_size.push(node_coordinates[i + 1].sub(node_coordinates[i]));
            i += 1;
        }
        let node_values: Vec<T> = zeros(n_elements + 1);
        proof {
            let target = MeshView::<T>::general(node_coordinates@);
            assert(element_size@ =~= target.sizes);
            assert(node_values@ =~= target.values);
        }
        if !is_strictly_increasing(&node_coordinates) || !is_all_positive(&element_size) {
            return Err(FemError::InvalidMeshSpec);
        }
        Ok(
            Mesh1D {
                n_elements,
                element_size,
                node_coordinates,
                node_values,
                elasticity: T::zero(),
                area: T::zero(),
                internal_force: T::zero(),
            },
        )
    }

    /// The number of elements, which is at least one.
    pub fn get_n_elements(&self) -> (n: usize)
        ensures
            n == self@.n_elements(),
            n < usize::MAX,
            self@.wf(),
    {
        proof {
            use_type_invariant(self);
            assert(self.node_coordinates.len() == self.n_elements + 1);
        }
        self.n_elements
    }

    /// The length of the given element, if there is one.
    pub fn get_element_size(&self, element: usize) -> (res: Option<T>)
        ensures
            res == if element < self@.sizes.len() {
                Some(self@.sizes[element as int])
            } else {
                None
            },
    {
        if element < self.element_size.len() {
            Some(self.element_size[element])
        } else {
            None
        }
    }

    /// The position of the given node, if there is one.
    pub fn get_node_coordinates(&self, node: usize) -> (res: Option<T>)
        ensures
            res == if node < self@.coordinates.len() {
                Some(self@.coordinates[node as int])
            } else {
                None
            },
    {
        if node < self.node_coordinates.len() {
            Some(self.node_coordinates[node])
        } else {
            None
        }
    }

    /// The field value at the given node, if there is one.
    pub fn get_node_values(&self, node: usize) -> (res: Option<T>)
        ensures
            res == if node < self@.values.len() {
                Some(self@.values[node as int])
            } else {
                None
            },
    {
        if node < self.node_values.len() {
            Some(self.node_values[node])
        } else {
            None
        }
    }

    /// The stiffness of the material.
    pub fn get_elasticity(&self) -> (v: T)
        ensures
            v == self@.elasticity,
    {
        self.elasticity
    }

    /// The cross-sectional area.
    pub fn get_area(&self) -> (v: T)
        ensures
            v == self@.area,
    {
        self.area
    }

    /// The source term per unit volume.
    pub fn get_internal_force(&self) -> (v: T)
        ensures
            v == self@.internal_force,
    {
        self.internal_force
    }

    /// Sets the stiffness of the material.
    pub fn set_elasticity(&mut self, value: T)
        ensures
            final(self)@ == (MeshView { elasticity: value, ..old(self)@ }),
    {
        proof {
            use_type_invariant(&*self);
        }
        self.elasticity = value;
    }

    /// Sets the cross-sectional area.
    pub fn set_area(&mut self, value: T)
        ensures
            final(self)@ == (MeshView { area: value, ..old(self)@ }),
    {
        proof {
            use_type_invariant(&*self);
        }
        self.area = value;
    }

    /// Sets the source term per unit volume.
    pub fn set_internal_force(&mut self, value: T)
        ensures
            final(self)@ == (MeshView { internal_force: value, ..old(self)@ }),
    {
        proof {
            use_type_invariant(&*self);
        }
        self.internal_force = value;
    }

    /// Replaces the field values, one for each node.
    pub fn set_node_values(&mut self, values: Vec<T>)
        requires
            values@.len() == old(self)@.values.len(),
        ensures
            final(self)@ == (MeshView { values: values@, ..old(self)@ }),
    {
        proof {
            use_type_invariant(&*self);
        }
        self.node_values = values;
    }
}

} // verus!
