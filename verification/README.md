# zust_core

The verified core of a desktop client for the ZUST academic-affairs system
(newjwxt): the two-step login (CAS, then the academic-affairs site, with its
picture-captcha and trusted-device detours), the HTTP session's own cookie
record, the requests of the API (headers and form bodies in the exact field
order the server wants), the reading of its replies into records, and the
enrolment engine that keeps trying to take courses.

Layout:

- `src/` — the library, written in Verus. Each public function states its
  result in its contract, exactly where the result depends on the arguments
  alone; where it depends on the machine or on chance (the data directory,
  random characters, fingerprints and padding), the contract states what
  holds of every outcome, and a separate function that takes the drawn
  value (`AuthManager::in_data_dir`, `chars_at`, `fingerprint_of`) states
  the rest exactly. The laws that relate several functions are public
  proof functions (`law_*`). Calls into `url`, `regex`, `serde_json`, `aes`,
  `cbc`, `rsa`, `base64`, `rand`, `reqwest` and `dirs` stand behind small
  trusted wrappers whose contracts name what those crates compute.
- `tests/` — tests of the library on concrete values.
- `app/` — the application around it: the HTTP requests themselves, files,
  the login flows and the enrolment loop (which send the requests and hand
  their answers to the library's transition functions), and serializable
  copies of the records for the front end. The grade-point averages and the
  jitter of the enrolment loop's wait are floating point and are computed
  there.
