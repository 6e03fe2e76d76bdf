//! One transform, many containers.
//!
//! A container kind says once what it becomes when its element type changes
//! ([`TypeMap`]); from that follow mapping by value, by reference and by
//! mutable reference, applicative combination, the same for containers with
//! two kinds of slot, and mapping for collections whose members are
//! themselves mappable.
pub mod applicative;
pub mod bifunctor;
pub mod bimapable;
pub mod boxed;
pub mod derived_mapable;
pub mod functor;
pub mod keyed;
pub mod mapable;
pub mod ref_into_iterator;
pub mod ref_mapable;

pub use crate::applicative::{Applicative, ApplicativeMut, ApplicativeOnce, Lifting};
pub use crate::bifunctor::{
    BiCoherent, BiFunctor, BiFunctorMut, BiFunctorOnce, BiTypeMap, Proj0, Proj1,
};
pub use crate::bimapable::{BiMapable, BiMapableRef};
pub use crate::boxed::{Boxed, BoxedTag};
pub use crate::derived_mapable::{DerivedMapable, DerivedMapableRef};
pub use crate::functor::{Coherent, Comp0, Comp1, Functor, FunctorMut, FunctorOnce, TypeMap};
pub use crate::mapable::{Mapable, Mapped};
pub use crate::ref_into_iterator::{MutIntoIterator, RefIntoIterator};
pub use crate::ref_mapable::RefMapable;
