use vstd::prelude::*;

verus! {

/// Pagination options of a listing request.
#[derive(Debug, Clone)]
pub struct FilterOptions {
    pub page: Option<usize>,
    pub limit: Option<usize>,
}

/// Path parameter of a single-record request.
#[derive(Debug, Clone)]
pub struct ParamOptions {
    pub id: String,
}

/// Payload of a category-creation request; the owner is carried as the
/// 128-bit value of its identifier.
#[derive(Debug, Clone)]
pub struct CreateCategorySchema {
    pub name: String,
    pub description: String,
    pub user_id: u128,
}

/// Payload of a category-update request.
#[derive(Debug, Clone)]
pub struct UpdateCategorySchema {
    pub name: String,
    pub description: String,
}

} // verus!
