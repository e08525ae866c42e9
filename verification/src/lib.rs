//! Credential and identity core: password policy and generation, password
//! hashing, signed session tokens, single-use reset tokens and the account
//! flows built from them.

pub mod auth_dto;
pub mod auth_errors;
pub mod auth_jwt;
pub mod auth_service;
pub mod clock;
pub mod credential_hasher;
pub mod entropy;
pub mod guarantees;
pub mod password_generator;
pub mod password_validator;
pub mod responses_dto;
pub mod text;
pub mod user;
pub mod user_dto;
pub mod user_password_reset;
pub mod user_service;
