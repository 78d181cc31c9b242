# processor

A verified core for a small file-anonymization system.

- `ingress` (the program in `app/`, mode `ingress`) scans `./files_to_process`
  when asked and announces every file on the message broker.
- `processor` (the default mode) polls the broker, and runs each announced
  file through a pipeline of stages: open the file, anonymize it, publish it.
  Each line of the file is a JSON event; when its `sensitive` member is
  `true`, every property named in its `paths` array (such as `$.user.name`)
  is replaced by the string `"Anonymize"`.

`src/` holds the verified library: the JSON model and its anonymization
(`json`, `json_text`, `helper`, `anonymize`), the pipeline as a state machine
(`pipeline`, `builder`, `dh`), file naming (`naming`), the broker-side
bookkeeping (`connection`, `ingress`), and the proved properties (`laws`).
`app/` performs the file and network work that the library asks for.
