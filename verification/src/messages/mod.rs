pub mod get_client_key_response;
