use vstd::prelude::*;

verus! {

/// Pagination options of a listing request.
#[derive(Debug, Clone)]
pub struct FilterOptions {
    pub page: Option<usize>,
    pub limit: Option<usize>,
}

/// Path parameter of a single-record request.
#[derive(Debug, Clone)]
pub struct ParamOptions {
    pub id: String,
}

/// Payload of a user-creation request.
#[derive(Debug, Clone)]
pub struct CreateUserSchema {
    pub name: String,
    pub email: String,
    pub password: String,
}

/// Payload of a user-update request.
#[derive(Debug, Clone)]
pub struct UpdateUserSchema {
    pub name: String,
    pub email: String,
    pub password: String,
}

/// Credentials of a login request.
#[derive(Debug, Clone)]
pub struct LoginUserSchema {
    pub email: String,
    pub password: String,
}

/// Claims carried by an issued authentication token.
#[derive(Debug, Clone)]
pub struct TokenClaims {
    pub sub: String,
    pub iat: usize,
    pub exp: usize,
}

} // verus!
