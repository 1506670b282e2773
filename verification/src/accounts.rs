//! Accounts: a wallet is the digest of its public key, and the public key
//! the digest of the secret behind the private key.

use vstd::prelude::*;
use vstd::string::*;

use crate::crypto::{
    digest_of_bytes, digest_of_text, generate_wallet_id, hex_text, keypair_from_secret,
    random_secret,
};
use crate::models::{AuthResponse, RegisterRequest, User, UserResponse, texts};
use crate::text::joined;
use crate::time::Timestamp;

verus! {

/// What stands before the wallet in a sign-in token.
pub const TOKEN_TAG: &'static str = "token_";

/// The account's keys and wallet are those that belong to `secret`: the
/// private key is the secret in hexadecimal, the public key its digest,
/// and the wallet the digest of the public key.
pub open spec fn keyed_by(user: User, secret: Seq<u8>) -> bool {
    &&& user.private_key_encrypted@ == hex_text(secret)
    &&& user.public_key@ == digest_of_bytes(secret)
    &&& user.wallet_id@ == digest_of_text(digest_of_bytes(secret))
}

/// Opens the account that `req` asks for, keyed by `secret` and created
/// at `created_at`.  It has no beneficiaries and has paid no levy yet.
pub fn new_account(
    req: &RegisterRequest,
    password_hash: String,
    secret: &[u8],
    created_at: Timestamp,
) -> (user: User)
    ensures
        keyed_by(user, secret@),
        user.email@ == req.email@,
        user.full_name@ == req.full_name@,
        user.cnic@ == req.cnic@,
        user.password_hash@ == password_hash@,
        user.created_at == created_at,
        texts(user.beneficiaries@) == Seq::<Seq<char>>::empty(),
        user.zakat_deduction == 0,
{
    let (private_key, public_key) = keypair_from_secret(secret);
    let wallet_id = generate_wallet_id(public_key.as_str());
    let user = User {
        email: req.email.clone(),
        full_name: req.full_name.clone(),
        cnic: req.cnic.clone(),
        password_hash,
        wallet_id,
        public_key,
        private_key_encrypted: private_key,
        created_at,
        beneficiaries: Vec::new(),
        zakat_deduction: 0,
    };
    assert(texts(user.beneficiaries@) =~= Seq::<Seq<char>>::empty());
    user
}

/// Opens the account that `req` asks for at the present time, keyed by a
/// fresh secret of 32 bytes.
pub fn open_account(req: &RegisterRequest, password_hash: String) -> (user: User)
    ensures
        exists|secret: Seq<u8>| secret.len() == 32 && #[trigger] keyed_by(user, secret),
        user.email@ == req.email@,
        user.full_name@ == req.full_name@,
        user.cnic@ == req.cnic@,
        user.password_hash@ == password_hash@,
        texts(user.beneficiaries@) == Seq::<Seq<char>>::empty(),
        user.zakat_deduction == 0,
{
    let secret = random_secret();
    let user = new_account(req, password_hash, secret.as_slice(), Timestamp::now());
    assert(keyed_by(user, secret@));
    user
}

/// What `user` shows of itself.
pub fn user_response(user: &User) -> (response: UserResponse)
    ensures
        response.email@ == user.email@,
        response.full_name@ == user.full_name@,
        response.wallet_id@ == user.wallet_id@,
        response.public_key@ == user.public_key@,
{
    UserResponse {
        email: user.email.clone(),
        full_name: user.full_name.clone(),
        wallet_id: user.wallet_id.clone(),
        public_key: user.public_key.clone(),
    }
}

/// What the holder of `user` gets on signing in: the token of the wallet
/// and the account's public face.
pub fn auth_response(user: &User) -> (response: AuthResponse)
    ensures
        response.token@ == TOKEN_TAG@ + user.wallet_id@,
        response.user.email@ == user.email@,
        response.user.full_name@ == user.full_name@,
        response.user.wallet_id@ == user.wallet_id@,
        response.user.public_key@ == user.public_key@,
{
    AuthResponse { token: joined(TOKEN_TAG, user.wallet_id.as_str()), user: user_response(user) }
}

} // verus!
