use vstd::prelude::*;

verus! {

/// The settings that the provider needs: an API key and an organization id,
/// both present.
pub struct Credentials {
    api_key: String,
    organization_id: String,
}

/// Which required setting is missing.
#[derive(Clone, Copy, Debug, PartialEq, Eq, Structural)]
pub enum CredentialsError {
    MissingApiKey,
    MissingOrganizationId,
}

impl CredentialsError {
    /// The diagnostic line for the missing setting.
    pub fn message(&self) -> (r: String)
        ensures
            r@ == match self {
                CredentialsError::MissingApiKey => "OPENAI_API_KEY must be set"@,
                CredentialsError::MissingOrganizationId => "ORGANIZATION_ID must be set"@,
            },
    {
        match self {
            CredentialsError::MissingApiKey => String::from_str("OPENAI_API_KEY must be set"),
            CredentialsError::MissingOrganizationId => String::from_str(
                "ORGANIZATION_ID must be set",
            ),
        }
    }
}

impl Credentials {
    pub closed spec fn api_key_view(&self) -> Seq<char> {
        self.api_key@
    }

    pub closed spec fn organization_id_view(&self) -> Seq<char> {
        self.organization_id@
    }

    /// Checks that both settings are present; the API key is checked first.
    pub fn from_values(api_key: Option<String>, organization_id: Option<String>) -> (r: Result<
        Credentials,
        CredentialsError,
    >)
        ensures
            api_key is None ==> r == Err::<Credentials, _>(CredentialsError::MissingApiKey),
            api_key is Some && organization_id is None ==> r == Err::<Credentials, _>(
                CredentialsError::MissingOrganizationId,
            ),
            api_key is Some && organization_id is Some ==> r is Ok
                && r->Ok_0.api_key_view() == api_key->Some_0@
                && r->Ok_0.organization_id_view() == organization_id->Some_0@,
    {
        match api_key {
            None => Err(CredentialsError::MissingApiKey),
            Some(api_key) => match organization_id {
                None => Err(CredentialsError::MissingOrganizationId),
                Some(organization_id) => Ok(Credentials { api_key, organization_id }),
            },
        }
    }

    pub fn api_key(&self) -> (r: &String)
        ensures
            r@ == self.api_key_view(),
    {
        &self.api_key
    }

    pub fn organization_id(&self) -> (r: &String)
        ensures
            r@ == self.organization_id_view(),
    {
        &self.organization_id
    }
}

} // verus!
