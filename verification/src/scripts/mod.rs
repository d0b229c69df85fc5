//! The certbot-facing operations: what each one validates, which command it
//! runs and how it reads the files certbot leaves behind.
pub mod cert_name;
pub mod file_read;
pub mod prepare_error;
pub mod read_renewal_params;
pub mod certbot_exec;
pub mod init_http_01;
pub mod add_domain;
pub mod reissue_http_01;
pub mod renew_certificate;
pub mod renew_dns;
pub mod fix_cert_symlinks;
pub mod acme_challenges;
pub mod get_domains_list;
pub mod cert_files;
pub mod get_domains_with_expiration;
pub mod get_letsencrypt_log;
pub mod update_cloudflare_config;
