use vstd::prelude::*;

verus! {

/// Settings of the entity store's service.
#[derive(Debug, Clone, PartialEq, Eq)]
pub struct Config {
    pub app: AppConfig,
    pub db: DatabaseConfig,
    pub graphql: GraphQlConfig,
}

/// Where the service listens.
#[derive(Debug, Clone, PartialEq, Eq)]
pub struct AppConfig {
    pub host: String,
    pub port: u16,
}

/// How the service reaches its database.
#[derive(Debug, Clone, PartialEq, Eq)]
pub struct DatabaseConfig {
    pub host: String,
    pub port: u16,
    pub username: String,
    pub password: String,
    pub db_name: String,
}

/// Where the GraphQL playground is served.
#[derive(Debug, Clone, PartialEq, Eq)]
pub struct GraphQlConfig {
    pub playground_route: String,
}

} // verus!
