//! A toy model of electron scattering off a proton in a learned potential.
//!
//! A small feed-forward network is fitted to the Cornell potential of a
//! quark-antiquark pair. The trained network then serves as the field of
//! three fixed target charges, in which electrons are fired past the target
//! and integrated step by step.
//!
//! All quantities are fixed-point numbers with six decimal places
//! ([`fixed`]); numbers from floating-point code enter as bit patterns
//! ([`single`]). The closed-form potential is in [`physics`], the network
//! and other regressors in [`model`] and [`regressor`], the field and its
//! forces in [`field`], the integrator and the scattering scenario in
//! [`scattering`], and a simulation that is advanced tick by tick in
//! [`live`]. [`training`] builds the training set and drives the training
//! loop, whose numerical work is supplied by the caller; [`normalization`]
//! converts between normalized and physical units. [`evaluation`] sets a
//! model beside the closed form, [`persistence`] judges what was found of a
//! saved model, and [`session`] holds what a session leaves.

pub mod fixed;
pub mod single;
pub mod physics;
pub mod regressor;
pub mod model;
pub mod field;
pub mod scattering;
pub mod live;
pub mod training;
pub mod normalization;
pub mod evaluation;
pub mod persistence;
pub mod session;
